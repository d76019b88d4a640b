//! Secrets of AI providers and other services: an in-memory table with
//! read-after-write guarantees, and how the answers of the operating
//! system's credential store are read. Reaching that store is left to the
//! host.
use vstd::prelude::*;
use crate::text::{concat, owned, same_text};

verus! {

#[derive(Debug, Clone)]
pub enum CredentialError {
    Store(String),
}

impl CredentialError {
    /// The message shown to the user.
    pub fn message(&self) -> (m: String)
        ensures
            m@ == (match *self {
                CredentialError::Store(d) => "credential store error: "@ + d@,
            }),
    {
        match self {
            CredentialError::Store(d) => concat("credential store error: ", d.as_str()),
        }
    }
}

/// The credentials of one service in the operating system's store.
#[derive(Debug, Clone)]
pub struct WindowsCredentialStore {
    service: String,
}

impl WindowsCredentialStore {
    pub closed spec fn service_name(&self) -> Seq<char> {
        self.service@
    }

    pub fn new(service: String) -> (s: Self)
        ensures
            s.service_name() == service@,
    {
        WindowsCredentialStore { service }
    }

    /// The service the credentials are filed under.
    pub fn service(&self) -> (s: &str)
        ensures
            s@ == self.service_name(),
    {
        self.service.as_str()
    }
}

/// How a call to the operating system's credential store failed.
#[derive(Debug, Clone)]
pub enum KeyringFailure {
    /// No credential is stored under the key.
    NoEntry,
    /// Any other failure, with its description.
    Other(String),
}

/// A stored secret is found; a missing one is no error.
pub fn secret_lookup(answer: Result<String, KeyringFailure>) -> (r: Result<Option<String>, CredentialError>)
    ensures
        answer matches Ok(s) ==> r == Ok::<Option<String>, CredentialError>(Some(s)),
        answer matches Err(KeyringFailure::NoEntry) ==> r == Ok::<Option<String>, CredentialError>(None),
        answer matches Err(KeyringFailure::Other(d)) ==> r matches Err(CredentialError::Store(e)) && e == d,
{
    match answer {
        Ok(s) => Ok(Some(s)),
        Err(KeyringFailure::NoEntry) => Ok(None),
        Err(KeyringFailure::Other(d)) => Err(CredentialError::Store(d)),
    }
}

/// Deleting a secret that is not there succeeds.
pub fn deletion_outcome(answer: Result<(), KeyringFailure>) -> (r: Result<(), CredentialError>)
    ensures
        answer is Ok ==> r is Ok,
        answer matches Err(KeyringFailure::NoEntry) ==> r is Ok,
        answer matches Err(KeyringFailure::Other(d)) ==> r matches Err(CredentialError::Store(e)) && e == d,
{
    match answer {
        Ok(()) => Ok(()),
        Err(KeyringFailure::NoEntry) => Ok(()),
        Err(KeyringFailure::Other(d)) => Err(CredentialError::Store(d)),
    }
}

/// Any failure to store a secret is an error.
pub fn store_outcome(answer: Result<(), KeyringFailure>) -> (r: Result<(), CredentialError>)
    ensures
        answer is Ok ==> r is Ok,
        answer matches Err(KeyringFailure::NoEntry) ==> r matches Err(CredentialError::Store(e))
            && e@ == "No matching entry found in secure storage"@,
        answer matches Err(KeyringFailure::Other(d)) ==> r matches Err(CredentialError::Store(e)) && e == d,
{
    match answer {
        Ok(()) => Ok(()),
        Err(KeyringFailure::NoEntry) => Err(
            CredentialError::Store(owned("No matching entry found in secure storage")),
        ),
        Err(KeyringFailure::Other(d)) => Err(CredentialError::Store(d)),
    }
}

/// The secret filed under `key` among `entries`: the newest entry with
/// that key wins.
pub open spec fn find_secret(entries: Seq<(String, String)>, key: Seq<char>) -> Option<Seq<char>>
    decreases entries.len(),
{
    if entries.len() == 0 {
        None
    } else if entries.last().0@ == key {
        Some(entries.last().1@)
    } else {
        find_secret(entries.drop_last(), key)
    }
}

/// Secrets kept in memory.
#[derive(Debug, Clone)]
pub struct SecretTable {
    entries: Vec<(String, String)>,
}

impl SecretTable {
    /// The secret stored under `key`, if any.
    pub closed spec fn secret_of(&self, key: Seq<char>) -> Option<Seq<char>> {
        find_secret(self.entries@, key)
    }

    /// An empty table.
    pub fn new() -> (t: Self)
        ensures
            forall|k: Seq<char>| t.secret_of(k) is None,
    {
        SecretTable { entries: Vec::new() }
    }

    /// The secret stored under `key`.
    pub fn get(&self, key: &str) -> (r: Option<String>)
        ensures
            match self.secret_of(key@) {
                Some(s) => r matches Some(x) && x@ == s,
                None => r is None,
            },
    {
        let mut i: usize = self.entries.len();
        assert(self.entries@.take(i as int) =~= self.entries@);
        while i > 0
            invariant
                i <= self.entries.len(),
                find_secret(self.entries@, key@) == find_secret(self.entries@.take(i as int), key@),
            decreases i,
        {
            assert(self.entries@.take(i as int).drop_last() =~= self.entries@.take(i - 1));
            if same_text(self.entries[i - 1].0.as_str(), key) {
                return Some(self.entries[i - 1].1.clone());
            }
            i -= 1;
        }
        None
    }

    /// Removes every entry filed under `key`.
    pub fn delete(&mut self, key: &str)
        ensures
            final(self).secret_of(key@) is None,
            forall|k: Seq<char>| k != key@ ==> #[trigger] final(self).secret_of(k) == old(self).secret_of(k),
    {
        let mut kept: Vec<(String, String)> = Vec::new();
        let mut i: usize = 0;
        while i < self.entries.len()
            invariant
                *self == *old(self),
                0 <= i <= self.entries.len(),
                find_secret(kept@, key@) is None,
                forall|k: Seq<char>| k != key@ ==> #[trigger] find_secret(kept@, k) == find_secret(
                    self.entries@.take(i as int),
                    k,
                ),
            decreases self.entries.len() - i,
        {
            let e = &self.entries[i];
            let ghost old_kept = kept@;
            proof {
                assert(self.entries@.take(i + 1).drop_last() =~= self.entries@.take(i as int));
            }
            let ghost t1 = self.entries@.take(i + 1);
            assert(t1.last() == *e);
            if !same_text(e.0.as_str(), key) {
                kept.push((e.0.clone(), e.1.clone()));
                proof {
                    assert(kept@.drop_last() =~= old_kept);
                    assert(kept@.last() == *e);
                    assert forall|k: Seq<char>| k != key@ implies #[trigger] find_secret(kept@, k)
                        == find_secret(t1, k) by {
                        assert(find_secret(old_kept, k) == find_secret(self.entries@.take(i as int), k));
                    }
                }
            } else {
                proof {
                    assert forall|k: Seq<char>| k != key@ implies #[trigger] find_secret(kept@, k)
                        == find_secret(t1, k) by {
                        assert(find_secret(old_kept, k) == find_secret(self.entries@.take(i as int), k));
                    }
                }
            }
            i += 1;
        }
        assert(self.entries@.take(self.entries@.len() as int) =~= self.entries@);
        self.entries = kept;
    }

    /// Stores `secret` under `key`, replacing what was there.
    pub fn set(&mut self, key: &str, secret: &str)
        ensures
            final(self).secret_of(key@) == Some(secret@),
            forall|k: Seq<char>| k != key@ ==> #[trigger] final(self).secret_of(k) == old(self).secret_of(k),
    {
        self.delete(key);
        let ghost mid = self.entries@;
        let ghost mid_table = *self;
        self.entries.push((owned(key), owned(secret)));
        assert(self.entries@.drop_last() =~= mid);
        assert forall|k: Seq<char>| k != key@ implies #[trigger] self.secret_of(k)
            == old(self).secret_of(k) by {
            assert(mid_table.secret_of(k) == old(self).secret_of(k));
        }
    }
}

/// A secret written under `key` still reads back after a later write or
/// delete under another key `other`.
pub proof fn lemma_read_after_write(
    after_set: SecretTable,
    after_other: SecretTable,
    key: Seq<char>,
    secret: Seq<char>,
    other: Seq<char>,
)
    requires
        after_set.secret_of(key) == Some(secret),
        other != key,
        forall|k: Seq<char>| k != other ==> #[trigger] after_other.secret_of(k) == after_set.secret_of(k),
    ensures
        after_other.secret_of(key) == Some(secret),
{
}

} // verus!
