//! The state of the sign-up form: what was typed, which complaints stand
//! against it, and whether it may be sent.
//!
//! Validation of a name or a password is not done here. The page asks the
//! validator and passes its verdict along with the text.

use crate::text::same_text;
use vstd::prelude::*;
use vstd::string::StringExecFns;

verus! {

/// The key under which a complaint about the user name is kept.
pub const BAD_USERNAME: &'static str = "bad-username";

/// The key under which a complaint about the password is kept.
pub const BAD_PASSWORD: &'static str = "bad-password";

/// One message and the key it is kept under.
#[derive(Debug)]
pub struct Notification {
    key: String,
    message: String,
}

/// Messages to show to the user, at most one for each key.
#[derive(Debug)]
pub struct KeyedNotifications {
    entries: Vec<Notification>,
}

/// Whether `entries` holds a message under `key`.
spec fn keyed(entries: Seq<Notification>, key: Seq<char>) -> bool {
    exists|i: int| 0 <= i < entries.len() && (#[trigger] entries[i]).key@ == key
}

/// A place in `entries` where `key` stands.
spec fn place_of(entries: Seq<Notification>, key: Seq<char>) -> int {
    choose|i: int| 0 <= i < entries.len() && (#[trigger] entries[i]).key@ == key
}

/// Whether no key stands twice in `entries`.
spec fn distinct_keys(entries: Seq<Notification>) -> bool {
    forall|i: int, j: int|
        0 <= i < j < entries.len() ==> (#[trigger] entries[i]).key@ != (#[trigger] entries[j]).key@
}

/// The messages of `entries` by key.
spec fn by_key(entries: Seq<Notification>) -> Map<Seq<char>, Seq<char>> {
    Map::new(
        |key: Seq<char>| keyed(entries, key),
        |key: Seq<char>| entries[place_of(entries, key)].message@,
    )
}

/// With distinct keys, a key stands at one place only.
proof fn lemma_place(entries: Seq<Notification>, at: int)
    requires
        distinct_keys(entries),
        0 <= at < entries.len(),
    ensures
        keyed(entries, entries[at].key@),
        place_of(entries, entries[at].key@) == at,
        by_key(entries)[entries[at].key@] == entries[at].message@,
{
    let key = entries[at].key@;
    let found = place_of(entries, key);
    assert(0 <= found < entries.len() && entries[found].key@ == key);
    if found < at {
        assert(entries[found].key@ != entries[at].key@);
    } else if at < found {
        assert(entries[at].key@ != entries[found].key@);
    }
}

impl View for KeyedNotifications {
    type V = Map<Seq<char>, Seq<char>>;

    closed spec fn view(&self) -> Map<Seq<char>, Seq<char>> {
        by_key(self.entries@)
    }
}

impl KeyedNotifications {
    /// Whether no key is kept twice.
    pub closed spec fn wf(&self) -> bool {
        distinct_keys(self.entries@)
    }

    /// Whether there is no message at all.
    pub open spec fn is_clear(&self) -> bool {
        self@ == Map::<Seq<char>, Seq<char>>::empty()
    }

    /// No messages.
    pub fn new() -> (made: KeyedNotifications)
        ensures
            made.wf(),
            made@ == Map::<Seq<char>, Seq<char>>::empty(),
            made.is_clear(),
    {
        let made = KeyedNotifications { entries: Vec::new() };
        assert(made@ =~= Map::<Seq<char>, Seq<char>>::empty());
        made
    }

    /// Where `key` stands, if it is kept.
    fn find(&self, key: &str) -> (at: Option<usize>)
        requires
            self.wf(),
        ensures
            match at {
                Some(i) => i < self.entries@.len() && self.entries@[i as int].key@ == key@,
                None => !keyed(self.entries@, key@),
            },
    {
        let mut i: usize = 0;
        while i < self.entries.len()
            invariant
                i <= self.entries@.len(),
                forall|j: int| 0 <= j < i ==> (#[trigger] self.entries@[j]).key@ != key@,
            decreases self.entries@.len() - i,
        {
            if same_text(self.entries[i].key.as_str(), key) {
                return Some(i);
            }
            i += 1;
        }
        None
    }

    /// Whether there is any message to show.
    pub fn has_messages(&self) -> (any: bool)
        requires
            self.wf(),
        ensures
            any == !self.is_clear(),
    {
        let any = self.entries.len() > 0;
        proof {
            if any {
                lemma_place(self.entries@, 0);
                assert(self@.contains_key(self.entries@[0].key@));
            } else {
                assert(self@ =~= Map::<Seq<char>, Seq<char>>::empty());
            }
        }
        any
    }

    /// The message kept under `key`, if there is one.
    pub fn message(&self, key: &str) -> (found: Option<&String>)
        requires
            self.wf(),
        ensures
            match found {
                Some(message) => self@.contains_key(key@) && self@[key@] == message@,
                None => !self@.contains_key(key@),
            },
    {
        match self.find(key) {
            Some(at) => {
                proof {
                    lemma_place(self.entries@, at as int);
                }
                Some(&self.entries[at].message)
            },
            None => None,
        }
    }

    /// Keeps `message` under `key`, in place of what was kept there.
    pub fn set(&mut self, key: &str, message: String)
        requires
            old(self).wf(),
        ensures
            final(self).wf(),
            final(self)@ == old(self)@.insert(key@, message@),
    {
        let ghost before = self.entries@;
        let entry = Notification { key: String::from_str(key), message };
        match self.find(key) {
            Some(at) => {
                self.entries.set(at, entry);
                proof {
                    let after = self.entries@;
                    assert(distinct_keys(after)) by {
                        assert forall|i: int, j: int| 0 <= i < j < after.len() implies (
                        #[trigger] after[i]).key@ != (#[trigger] after[j]).key@ by {
                            assert(before[i].key@ != before[j].key@);
                        }
                    }
                    assert forall|k: Seq<char>| keyed(after, k) <==> keyed(before, k) || k
                        == key@ by {
                        if keyed(after, k) {
                            let i = place_of(after, k);
                            assert(before[i].key@ == k);
                        }
                        if keyed(before, k) {
                            let i = place_of(before, k);
                            assert(after[i].key@ == k);
                        }
                        if k == key@ {
                            assert(after[at as int].key@ == k);
                        }
                    }
                    assert forall|k: Seq<char>| keyed(after, k) implies by_key(after)[k] == (if k
                        == key@ {
                        message@
                    } else {
                        by_key(before)[k]
                    }) by {
                        let i = place_of(after, k);
                        lemma_place(after, i);
                        lemma_place(before, i);
                    }
                    assert(self@ =~= old(self)@.insert(key@, message@));
                }
            },
            None => {
                self.entries.push(entry);
                proof {
                    let after = self.entries@;
                    let last = before.len() as int;
                    assert(distinct_keys(after)) by {
                        assert forall|i: int, j: int| 0 <= i < j < after.len() implies (
                        #[trigger] after[i]).key@ != (#[trigger] after[j]).key@ by {
                            if j < last {
                                assert(before[i].key@ != before[j].key@);
                            } else {
                                assert(before[i].key@ != key@);
                            }
                        }
                    }
                    assert forall|k: Seq<char>| keyed(after, k) <==> keyed(before, k) || k
                        == key@ by {
                        if keyed(after, k) {
                            let i = place_of(after, k);
                            if i < last {
                                assert(before[i].key@ == k);
                            }
                        }
                        if keyed(before, k) {
                            let i = place_of(before, k);
                            assert(after[i].key@ == k);
                        }
                        if k == key@ {
                            assert(after[last].key@ == k);
                        }
                    }
                    assert forall|k: Seq<char>| keyed(after, k) implies by_key(after)[k] == (if k
                        == key@ {
                        message@
                    } else {
                        by_key(before)[k]
                    }) by {
                        let i = place_of(after, k);
                        lemma_place(after, i);
                        if i < last {
                            lemma_place(before, i);
                        }
                    }
                    assert(self@ =~= old(self)@.insert(key@, message@));
                }
            },
        }
    }

    /// Drops the message kept under `key`, if there is one.
    pub fn remove(&mut self, key: &str)
        requires
            old(self).wf(),
        ensures
            final(self).wf(),
            final(self)@ == old(self)@.remove(key@),
    {
        let ghost before = self.entries@;
        match self.find(key) {
            Some(at) => {
                self.entries.remove(at);
                proof {
                    let after = self.entries@;
                    let gap = at as int;
                    assert forall|i: int| 0 <= i < after.len() implies #[trigger] after[i] == (
                    if i < gap {
                        before[i]
                    } else {
                        before[i + 1]
                    }) by {}
                    assert(distinct_keys(after)) by {
                        assert forall|i: int, j: int| 0 <= i < j < after.len() implies (
                        #[trigger] after[i]).key@ != (#[trigger] after[j]).key@ by {
                            let i2 = if i < gap {
                                i
                            } else {
                                i + 1
                            };
                            let j2 = if j < gap {
                                j
                            } else {
                                j + 1
                            };
                            assert(before[i2].key@ != before[j2].key@);
                        }
                    }
                    assert forall|k: Seq<char>| keyed(after, k) <==> keyed(before, k) && k
                        != key@ by {
                        if keyed(after, k) {
                            let i = place_of(after, k);
                            let i2 = if i < gap {
                                i
                            } else {
                                i + 1
                            };
                            assert(before[i2].key@ == k);
                            if i2 < gap {
                                assert(before[i2].key@ != before[gap].key@);
                            } else {
                                assert(before[gap].key@ != before[i2].key@);
                            }
                        }
                        if keyed(before, k) && k != key@ {
                            let i = place_of(before, k);
                            if i < gap {
                                assert(after[i].key@ == k);
                            } else {
                                assert(after[i - 1].key@ == k);
                            }
                        }
                    }
                    assert forall|k: Seq<char>| keyed(after, k) implies by_key(after)[k]
                        == by_key(before)[k] by {
                        let i = place_of(after, k);
                        lemma_place(after, i);
                        if i < gap {
                            lemma_place(before, i);
                        } else {
                            lemma_place(before, i + 1);
                        }
                    }
                    assert(self@ =~= old(self)@.remove(key@));
                }
            },
            None => {
                proof {
                    assert(self@ =~= old(self)@.remove(key@));
                }
            },
        }
    }
}

/// What the sign-up page remembers between two keystrokes.
#[derive(Debug)]
pub struct PageState {
    username: String,
    password: String,
    form_errors: KeyedNotifications,
}

/// The form as mathematics: the two texts and the complaints by key.
pub struct PageView {
    pub username: Seq<char>,
    pub password: Seq<char>,
    pub errors: Map<Seq<char>, Seq<char>>,
}

/// A complaint as the form shows it: what it is about, then the reason.
pub open spec fn complaint(about: Seq<char>, reason: Seq<char>) -> Seq<char> {
    about + ": "@ + reason
}

/// The complaints after a field was checked: none under its key if the text
/// passed, else the one that says why it did not.
pub open spec fn checked(
    errors: Map<Seq<char>, Seq<char>>,
    key: Seq<char>,
    about: Seq<char>,
    rejection: Option<&str>,
) -> Map<Seq<char>, Seq<char>> {
    match rejection {
        None => errors.remove(key),
        Some(reason) => errors.insert(key, complaint(about, reason@)),
    }
}

impl PageView {
    /// Whether the form may be sent: nothing stands against it and neither
    /// field is empty.
    pub open spec fn submittable(self) -> bool {
        &&& self.errors == Map::<Seq<char>, Seq<char>>::empty()
        &&& self.username.len() > 0
        &&& self.password.len() > 0
    }
}

impl View for PageState {
    type V = PageView;

    closed spec fn view(&self) -> PageView {
        PageView {
            username: self.username@,
            password: self.password@,
            errors: self.form_errors@,
        }
    }
}

impl PageState {
    /// Whether the state is consistent: no key is kept twice, and complaints
    /// stand only under the keys of the two fields.
    pub closed spec fn wf(&self) -> bool {
        &&& self.form_errors.wf()
        &&& forall|key: Seq<char>| #[trigger]
            self.form_errors@.contains_key(key) ==> key == BAD_USERNAME@ || key
                == BAD_PASSWORD@
    }

    /// In a consistent state every complaint is about the user name or about
    /// the password, so the form can be sent as soon as both fields are
    /// filled and neither is complained about.
    pub proof fn lemma_complaints(&self)
        requires
            self.wf(),
        ensures
            forall|key: Seq<char>| #[trigger]
                self@.errors.contains_key(key) ==> key == BAD_USERNAME@ || key
                    == BAD_PASSWORD@,
            self@.submittable() <==> {
                &&& !self@.errors.contains_key(BAD_USERNAME@)
                &&& !self@.errors.contains_key(BAD_PASSWORD@)
                &&& self@.username.len() > 0
                &&& self@.password.len() > 0
            },
    {
        if !self@.errors.contains_key(BAD_USERNAME@) && !self@.errors.contains_key(
            BAD_PASSWORD@,
        ) {
            assert(self@.errors =~= Map::<Seq<char>, Seq<char>>::empty());
        }
    }

    /// An empty form without complaints.
    pub fn new() -> (state: PageState)
        ensures
            state.wf(),
            state@.username == Seq::<char>::empty(),
            state@.password == Seq::<char>::empty(),
            state@.errors == Map::<Seq<char>, Seq<char>>::empty(),
            !state@.submittable(),
    {
        PageState {
            username: String::new(),
            password: String::new(),
            form_errors: KeyedNotifications::new(),
        }
    }

    /// The user name as typed.
    pub fn username(&self) -> (text: &str)
        ensures
            text@ == self@.username,
    {
        self.username.as_str()
    }

    /// The password as typed.
    pub fn password(&self) -> (text: &str)
        ensures
            text@ == self@.password,
    {
        self.password.as_str()
    }

    /// Whether the form may be sent.
    pub fn can_submit(&self) -> (ok: bool)
        requires
            self.wf(),
        ensures
            ok == self@.submittable(),
    {
        let complaints = self.form_errors.has_messages();
        let no_name = self.username.as_str().is_empty();
        let no_password = self.password.as_str().is_empty();
        !(complaints || no_name || no_password)
    }

    /// The message shown under `key`, if one stands.
    pub fn error(&self, key: &str) -> (found: Option<&String>)
        requires
            self.wf(),
        ensures
            match found {
                Some(message) => self@.errors.contains_key(key@) && self@.errors[key@]
                    == message@,
                None => !self@.errors.contains_key(key@),
            },
    {
        self.form_errors.message(key)
    }

    /// The user typed in the name field. `rejection` is the validator's
    /// reason if `value` is no valid user name. The complaint about the name
    /// is set or lifted accordingly, and the text is kept either way.
    pub fn username_input(&mut self, value: &str, rejection: Option<&str>)
        requires
            old(self).wf(),
        ensures
            final(self).wf(),
            final(self)@ == (PageView {
                username: value@,
                errors: checked(old(self)@.errors, BAD_USERNAME@, "username"@, rejection),
                ..old(self)@
            }),
    {
        match rejection {
            None => self.form_errors.remove(BAD_USERNAME),
            Some(reason) => {
                let mut message = String::from_str("username");
                message.append(": ");
                message.append(reason);
                self.form_errors.set(BAD_USERNAME, message);
            },
        }
        self.username = String::from_str(value);
    }

    /// The user typed in the password field. `rejection` is the validator's
    /// reason if `value` is no valid password. The complaint about the
    /// password is set or lifted accordingly, and the text is kept either way.
    pub fn password_input(&mut self, value: &str, rejection: Option<&str>)
        requires
            old(self).wf(),
        ensures
            final(self).wf(),
            final(self)@ == (PageView {
                password: value@,
                errors: checked(old(self)@.errors, BAD_PASSWORD@, "password"@, rejection),
                ..old(self)@
            }),
    {
        match rejection {
            None => self.form_errors.remove(BAD_PASSWORD),
            Some(reason) => {
                let mut message = String::from_str("password");
                message.append(": ");
                message.append(reason);
                self.form_errors.set(BAD_PASSWORD, message);
            },
        }
        self.password = String::from_str(value);
    }
}

} // verus!
