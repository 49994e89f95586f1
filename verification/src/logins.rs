//! The credential store: records bound to URL prefixes, and the rule that
//! picks the record for a request URL.

use vstd::prelude::*;
use vstd::string::StrSliceExecFns;
use vstd::pervasive::VecAdditionalExecFns;
use vstd::string::StringExecFns;
use crate::error::{ErdError, Failure};
use crate::text::starts_with;

verus! {

/// What a `Login` holds, as plain text.
pub struct Credential {
    pub url: Seq<char>,
    pub username: Seq<char>,
    pub secret: Seq<char>,
}

/// A secret bound to a URL prefix.
#[derive(Debug)]
pub struct Login {
    pub url: String,
    pub username: String,
    pub password: String,
}

impl View for Login {
    type V = Credential;

    open spec fn view(&self) -> Credential {
        Credential { url: self.url@, username: self.username@, secret: self.password@ }
    }
}

/// The credential records, in the order in which they were stored.
#[derive(Debug)]
pub struct Logins {
    pub logins: Vec<Login>,
}

impl View for Logins {
    type V = Seq<Credential>;

    open spec fn view(&self) -> Seq<Credential> {
        self.logins@.map_values(|l: Login| l@)
    }
}

/// The name of the file that holds the credential store.
pub const AUTH_FILE: &'static str = "erd-logins.toml";

/// What was found where the credential store is kept.
#[derive(Debug)]
pub enum StoredLogins {
    /// There is no file.
    Missing,
    /// The file could not be read: the cause.
    Unreadable(String),
    /// The file does not hold a credential store: the cause.
    Malformed(String),
    /// The store that the file holds.
    Read(Logins),
}

/// A credential applies to `url` when its own URL is a textual prefix of it.
pub open spec fn applies(c: Credential, url: Seq<char>) -> bool {
    c.url.is_prefix_of(url)
}

/// `i` is the record chosen for `url`: it applies, no applying record has a
/// longer URL, and every applying record before it has a shorter one.
pub open spec fn is_best_match(store: Seq<Credential>, url: Seq<char>, i: int) -> bool {
    &&& 0 <= i < store.len()
    &&& applies(store[i], url)
    &&& forall|j: int|
        0 <= j < store.len() && applies(#[trigger] store[j], url) ==> store[j].url.len()
            <= store[i].url.len()
    &&& forall|j: int|
        0 <= j < i && applies(#[trigger] store[j], url) ==> store[j].url.len() < store[i].url.len()
}

/// The record chosen for `url`, if any applies (see [`is_best_match`]).
pub open spec fn best_match(store: Seq<Credential>, url: Seq<char>) -> Option<int> {
    if exists|i: int| is_best_match(store, url, i) {
        Some(choose|i: int| is_best_match(store, url, i))
    } else {
        None
    }
}

/// At most one record is the chosen one.
pub proof fn lemma_best_match_unique(store: Seq<Credential>, url: Seq<char>, i: int, j: int)
    requires
        is_best_match(store, url, i),
        is_best_match(store, url, j),
    ensures
        i == j,
{
    if i < j {
        assert(applies(store[i], url));
    } else if j < i {
        assert(applies(store[j], url));
    }
}

/// `i` is the first record whose URL is exactly `url`.
pub open spec fn is_first_with_url(store: Seq<Credential>, url: Seq<char>, i: int) -> bool {
    &&& 0 <= i < store.len()
    &&& store[i].url == url
    &&& forall|j: int| 0 <= j < i ==> (#[trigger] store[j]).url != url
}

/// The credential store, given what was found in `file`, which is the
/// file's path as it is shown. A missing file stands for an empty store; a
/// file that cannot be read, or that holds something else, is a failure.
pub fn read_logins_file(file: &str, found: StoredLogins) -> (r: Result<Logins, ErdError>)
    ensures
        match found {
            StoredLogins::Missing => r matches Ok(logins) && logins@ == Seq::<Credential>::empty(),
            StoredLogins::Unreadable(cause) => r matches Err(e) && e@ == Failure::IOError(
                cause@,
                "Failed to read "@ + file@,
            ),
            StoredLogins::Malformed(cause) => r matches Err(e) && e@ == Failure::Deserialize(
                cause@,
                file@,
            ),
            StoredLogins::Read(logins) => r == Ok::<_, ErdError>(logins),
        },
{
    match found {
        StoredLogins::Missing => Ok(Logins::new()),
        StoredLogins::Unreadable(cause) => {
            let mut desc = String::from_str("Failed to read ");
            desc.append(file);
            Err(ErdError::IOError(cause, desc))
        },
        StoredLogins::Malformed(cause) => Err(ErdError::Deserialize(cause, String::from_str(file))),
        StoredLogins::Read(logins) => Ok(logins),
    }
}

impl Logins {
    /// An empty store.
    pub fn new() -> (r: Logins)
        ensures
            r@ == Seq::<Credential>::empty(),
    {
        let r = Logins { logins: Vec::new() };
        assert(r@ =~= Seq::<Credential>::empty());
        r
    }

    /// The record whose URL is the longest prefix of `url`; of several
    /// records of that length, the first. `None` when no record applies.
    pub fn find_login(&self, url: &str) -> (r: Option<&Login>)
        ensures
            match r {
                Some(login) => exists|i: int|
                    {
                        &&& is_best_match(self@, url@, i)
                        &&& best_match(self@, url@) == Some(i)
                        &&& self.logins@[i] == *login
                    },
                None => {
                    &&& best_match(self@, url@) is None
                    &&& forall|j: int| 0 <= j < self@.len() ==> !applies(#[trigger] self@[j], url@)
                },
            },
    {
        let mut best: Option<usize> = None;
        let mut best_len: usize = 0;
        let mut k: usize = 0;
        while k < self.logins.len()
            invariant
                k <= self.logins.len(),
                self@.len() == self.logins.len(),
                match best {
                    Some(b) => {
                        &&& b < k
                        &&& applies(self@[b as int], url@)
                        &&& best_len == self@[b as int].url.len()
                        &&& forall|j: int|
                            0 <= j < k && applies(#[trigger] self@[j], url@) ==> self@[j].url.len()
                                <= best_len
                        &&& forall|j: int|
                            0 <= j < b && applies(#[trigger] self@[j], url@) ==> self@[j].url.len()
                                < best_len
                    },
                    None => forall|j: int| 0 <= j < k ==> !applies(#[trigger] self@[j], url@),
                },
            decreases self.logins.len() - k,
        {
            let login = &self.logins[k];
            assert(self@[k as int] == login@);
            if starts_with(url, login.url.as_str()) {
                let n = login.url.as_str().unicode_len();
                if best.is_none() || n > best_len {
                    best = Some(k);
                    best_len = n;
                }
            }
            k += 1;
        }
        match best {
            Some(b) => {
                proof {
                    assert(is_best_match(self@, url@, b as int));
                    let c = choose|i: int| is_best_match(self@, url@, i);
                    lemma_best_match_unique(self@, url@, c, b as int);
                }
                Some(&self.logins[b])
            },
            None => {
                assert forall|i: int| !is_best_match(self@, url@, i) by {
                    if 0 <= i < self@.len() {
                        assert(!applies(self@[i], url@));
                    }
                }
                None
            },
        }
    }

    /// Stores `login`. A record with the same URL is replaced in place, and
    /// the record that was there is returned; otherwise `login` is added at
    /// the end.
    pub fn set_login(&mut self, login: Login) -> (r: Option<Login>)
        ensures
            match r {
                Some(previous) => exists|i: int|
                    {
                        &&& is_first_with_url(old(self)@, login@.url, i)
                        &&& previous == old(self).logins@[i]
                        &&& final(self).logins@ == old(self).logins@.update(i, login)
                        &&& final(self)@ == old(self)@.update(i, login@)
                    },
                None => {
                    &&& forall|j: int|
                        0 <= j < old(self)@.len() ==> (#[trigger] old(self)@[j]).url != login@.url
                    &&& final(self).logins@ == old(self).logins@.push(login)
                    &&& final(self)@ == old(self)@.push(login@)
                },
            },
            final(self)@.len() == old(self)@.len() + if r is None {
                1int
            } else {
                0int
            },
    {
        let mut k: usize = 0;
        while k < self.logins.len()
            invariant
                k <= self.logins.len(),
                *self == *old(self),
                self@.len() == self.logins.len(),
                forall|j: int| 0 <= j < k ==> (#[trigger] self@[j]).url != login@.url,
            decreases self.logins.len() - k,
        {
            assert(self@[k as int] == self.logins@[k as int]@);
            if self.logins[k].url == login.url {
                let mut slot = login;
                self.logins.set_and_swap(k, &mut slot);
                assert(is_first_with_url(old(self)@, login@.url, k as int));
                assert(self@ =~= old(self)@.update(k as int, login@));
                return Some(slot);
            }
            k += 1;
        }
        self.logins.push(login);
        assert(self@ =~= old(self)@.push(login@));
        None
    }
}

} // verus!
