//! The variables that a configuration is filled in with.
//!
//! Variables come from files named `dispenser.vars` or `*.dispenser.vars`.
//! A variable is a plain text or the name of a secret that is fetched
//! before the configuration is read. Where several files set one variable
//! the file read last prevails.

use crate::file::same_string;
use crate::text::{chars_eq, chars_of, has_suffix, push_str, string_of};
use vstd::prelude::*;

verus! {

/// The version of a secret where none is named.
pub fn default_gcp_secret_version() -> (r: String)
    ensures
        r@ == "latest"@,
{
    "latest".to_owned()
}

/// A secret and where it is kept.
#[derive(Debug, Clone, PartialEq, Eq)]
pub enum Secret {
    /// A secret of the Google secret manager.
    Google { name: String, version: String },
}

/// What a variable is set to.
#[derive(Debug, Clone, PartialEq, Eq)]
pub enum ServiceVarEntry {
    Raw(String),
    Secret(Secret),
}

/// Variables as the files set them. The list is a map: of several entries
/// with one key the last one counts.
#[derive(Debug, Clone, PartialEq, Eq)]
pub struct ServiceVars {
    pub inner: Vec<(String, ServiceVarEntry)>,
}

/// The variables of a configuration of compose projects: the same as those
/// of a configuration of services.
pub type DispenserVars = ServiceVars;

/// Variables with their values. The list is a map: of several entries with
/// one key the last one counts.
#[derive(Debug, Clone, PartialEq, Eq)]
pub struct ServiceVarsMaterialized {
    pub inner: Vec<(String, String)>,
}

/// The name under which the secret manager keeps a version of a secret:
/// `name/versions/version`.
pub fn secret_resource(name: &str, version: &str) -> (r: String)
    ensures
        r@ == name@ + "/versions/"@ + version@,
{
    let mut out: Vec<char> = Vec::new();
    push_str(&mut out, name);
    push_str(&mut out, "/versions/");
    push_str(&mut out, version);
    string_of(&out)
}

/// Whether a file of this name holds variables: it is `dispenser.vars` or
/// ends with `.dispenser.vars`.
pub fn is_vars_file(file_name: &str) -> (r: bool)
    ensures
        r == (file_name@ == "dispenser.vars"@ || ".dispenser.vars"@.is_suffix_of(file_name@)),
{
    let name = chars_of(file_name);
    let whole = chars_of("dispenser.vars");
    let ending = chars_of(".dispenser.vars");
    chars_eq(&name, &whole) || has_suffix(&name, &ending)
}

/// The entries of all the sets, one set after the other.
pub open spec fn all_entries(sets: Seq<ServiceVars>) -> Seq<(String, ServiceVarEntry)>
    decreases sets.len(),
{
    if sets.len() == 0 {
        Seq::<(String, ServiceVarEntry)>::empty()
    } else {
        sets[0].inner@ + all_entries(sets.drop_first())
    }
}

/// What `key` is set to: the last entry with this key.
pub open spec fn lookup(entries: Seq<(String, ServiceVarEntry)>, key: Seq<char>) -> Option<
    ServiceVarEntry,
>
    decreases entries.len(),
{
    if entries.len() == 0 {
        None
    } else if entries.last().0@ == key {
        Some(entries.last().1)
    } else {
        lookup(entries.drop_last(), key)
    }
}

/// Of two lists of entries in a row the second prevails: a key is set to
/// what the second list sets it to, and to what the first sets it to only
/// where the second does not set it.
pub proof fn lemma_later_entries_prevail(
    first: Seq<(String, ServiceVarEntry)>,
    second: Seq<(String, ServiceVarEntry)>,
    key: Seq<char>,
)
    ensures
        lookup(first + second, key) == match lookup(second, key) {
            Some(entry) => Some(entry),
            None => lookup(first, key),
        },
    decreases second.len(),
{
    if second.len() == 0 {
        assert(first + second =~= first);
    } else {
        let all = first + second;
        assert(all.last() == second.last());
        assert(all.drop_last() =~= first + second.drop_last());
        lemma_later_entries_prevail(first, second.drop_last(), key);
    }
}

impl ServiceVars {
    /// All the sets as one: the entries of every set, the sets in their
    /// order, so that a later set prevails over an earlier one.
    pub fn combine(vars: Vec<ServiceVars>) -> (r: ServiceVars)
        ensures
            r.inner@ == all_entries(vars@),
    {
        let mut rest = vars;
        let mut combined: Vec<(String, ServiceVarEntry)> = Vec::new();
        assert(combined@ + all_entries(rest@) =~= all_entries(vars@));
        while rest.len() > 0
            invariant
                combined@ + all_entries(rest@) == all_entries(vars@),
            decreases rest.len(),
        {
            let ghost before = rest@;
            let ghost done = combined@;
            let mut set = rest.remove(0);
            assert(rest@ =~= before.drop_first());
            assert(set == before[0]);
            let ghost entries = set.inner@;
            combined.append(&mut set.inner);
            assert(combined@ + all_entries(rest@) =~= done + (entries + all_entries(
                before.drop_first(),
            )));
        }
        assert(all_entries(rest@) =~= Seq::<(String, ServiceVarEntry)>::empty());
        assert(combined@ + all_entries(rest@) =~= combined@);
        ServiceVars { inner: combined }
    }

    /// What `key` is set to.
    pub fn get(&self, key: &str) -> (r: Option<&ServiceVarEntry>)
        ensures
            match r {
                Some(entry) => lookup(self.inner@, key@) == Some(*entry),
                None => lookup(self.inner@, key@) is None,
            },
    {
        let name = key.to_owned();
        let mut i: usize = self.inner.len();
        assert(self.inner@.subrange(0, i as int) =~= self.inner@);
        while i > 0
            invariant
                i <= self.inner.len(),
                name@ == key@,
                lookup(self.inner@, key@) == lookup(self.inner@.subrange(0, i as int), key@),
            decreases i,
        {
            let ghost part = self.inner@.subrange(0, i as int);
            assert(part.last() == self.inner@[i - 1]);
            assert(part.drop_last() =~= self.inner@.subrange(0, i - 1));
            i -= 1;
            if same_string(&self.inner[i].0, &name) {
                return Some(&self.inner[i].1);
            }
        }
        None
    }
}

/// The number of secrets among the first `n` entries.
pub open spec fn secrets_before(entries: Seq<(String, ServiceVarEntry)>, n: int) -> int
    decreases n,
{
    if n <= 0 {
        0
    } else {
        secrets_before(entries, n - 1) + if entries[n - 1].1 is Secret {
            1int
        } else {
            0int
        }
    }
}

/// The value of the entry at `i`: its text, or for a secret the fetched
/// value of its rank among the secrets.
pub open spec fn value_at(entries: Seq<(String, ServiceVarEntry)>, fetched: Seq<String>, i: int) -> Seq<
    char,
> {
    match entries[i].1 {
        ServiceVarEntry::Raw(text) => text@,
        ServiceVarEntry::Secret(_) => fetched[secrets_before(entries, i)]@,
    }
}

impl ServiceVars {
    /// The secrets that have to be fetched, in the order of their entries:
    /// for each the name under which the secret manager keeps it.
    pub fn secrets(&self) -> (r: Vec<String>)
        ensures
            r@.len() == secrets_before(self.inner@, self.inner@.len() as int),
            forall|i: int|
                0 <= i < self.inner@.len() ==> match (#[trigger] self.inner@[i]).1 {
                    ServiceVarEntry::Secret(Secret::Google { name, version }) => 0
                        <= secrets_before(self.inner@, i) < r@.len() && r@[secrets_before(
                        self.inner@,
                        i,
                    )]@ == name@ + "/versions/"@ + version@,
                    ServiceVarEntry::Raw(_) => true,
                },
    {
        let mut out: Vec<String> = Vec::new();
        let mut i: usize = 0;
        while i < self.inner.len()
            invariant
                i <= self.inner.len(),
                out@.len() == secrets_before(self.inner@, i as int),
                forall|j: int|
                    0 <= j < i ==> match (#[trigger] self.inner@[j]).1 {
                        ServiceVarEntry::Secret(Secret::Google { name, version }) => 0
                            <= secrets_before(self.inner@, j) < out@.len() && out@[secrets_before(
                            self.inner@,
                            j,
                        )]@ == name@ + "/versions/"@ + version@,
                        ServiceVarEntry::Raw(_) => true,
                    },
            decreases self.inner.len() - i,
        {
            proof {
                lemma_secrets_before_grows(self.inner@, i as int);
            }
            let ghost before = out@;
            match &self.inner[i].1 {
                ServiceVarEntry::Secret(Secret::Google { name, version }) => {
                    out.push(secret_resource(name.as_str(), version.as_str()));
                    assert(self.inner@[i as int].1 is Secret);
                    assert(out@[secrets_before(self.inner@, i as int)]@ == name@ + "/versions/"@
                        + version@);
                },
                ServiceVarEntry::Raw(_) => {},
            }
            assert forall|j: int| 0 <= j < i implies match (#[trigger] self.inner@[j]).1 {
                ServiceVarEntry::Secret(Secret::Google { name, version }) => 0 <= secrets_before(
                    self.inner@,
                    j,
                ) < out@.len() && out@[secrets_before(self.inner@, j)]@ == name@ + "/versions/"@
                    + version@,
                ServiceVarEntry::Raw(_) => true,
            } by {
                if self.inner@[j].1 is Secret {
                    assert(out@[secrets_before(self.inner@, j)] == before[secrets_before(
                        self.inner@,
                        j,
                    )]);
                }
            }
            i += 1;
        }
        out
    }

    /// The variables with their values, `fetched` being the values of the
    /// secrets in the order of their entries.
    pub fn materialize(&self, fetched: &Vec<String>) -> (r: ServiceVarsMaterialized)
        requires
            fetched@.len() == secrets_before(self.inner@, self.inner@.len() as int),
        ensures
            r.inner@.len() == self.inner@.len(),
            forall|i: int|
                0 <= i < self.inner@.len() ==> (#[trigger] r.inner@[i]).0@ == self.inner@[i].0@
                    && r.inner@[i].1@ == value_at(self.inner@, fetched@, i),
    {
        let mut out: Vec<(String, String)> = Vec::new();
        let mut next: usize = 0;
        let mut i: usize = 0;
        while i < self.inner.len()
            invariant
                i <= self.inner.len(),
                out@.len() == i,
                next == secrets_before(self.inner@, i as int),
                fetched@.len() == secrets_before(self.inner@, self.inner@.len() as int),
                forall|j: int|
                    0 <= j < i ==> (#[trigger] out@[j]).0@ == self.inner@[j].0@ && out@[j].1@
                        == value_at(self.inner@, fetched@, j),
            decreases self.inner.len() - i,
        {
            proof {
                lemma_secrets_before_grows(self.inner@, i as int);
                lemma_secrets_before_is_monotone(
                    self.inner@,
                    i + 1,
                    self.inner@.len() as int,
                );
            }
            let value = match &self.inner[i].1 {
                ServiceVarEntry::Raw(text) => text.clone(),
                ServiceVarEntry::Secret(_) => {
                    assert(self.inner@[i as int].1 is Secret);
                    let limit = fetched.len();
                    assert(next < limit);
                    let v = fetched[next].clone();
                    next += 1;
                    v
                },
            };
            out.push((self.inner[i].0.clone(), value));
            i += 1;
        }
        ServiceVarsMaterialized { inner: out }
    }
}

/// The number of secrets before a position grows by one at a secret and not
/// at all at a plain text.
pub proof fn lemma_secrets_before_grows(entries: Seq<(String, ServiceVarEntry)>, n: int)
    requires
        0 <= n,
    ensures
        secrets_before(entries, n + 1) == secrets_before(entries, n) + if entries[n].1 is Secret {
            1int
        } else {
            0int
        },
        secrets_before(entries, n) >= 0,
    decreases n,
{
    if n > 0 {
        lemma_secrets_before_grows(entries, n - 1);
    }
}

/// There are no fewer secrets before a later position than before an earlier
/// one.
pub proof fn lemma_secrets_before_is_monotone(entries: Seq<(String, ServiceVarEntry)>, a: int, b: int)
    requires
        0 <= a <= b,
    ensures
        secrets_before(entries, a) <= secrets_before(entries, b),
    decreases b - a,
{
    if a < b {
        lemma_secrets_before_is_monotone(entries, a, b - 1);
        lemma_secrets_before_grows(entries, b - 1);
    }
}

} // verus!
