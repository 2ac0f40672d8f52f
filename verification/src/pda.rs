//! PDA (program-derived address) seeds from IDL seed definitions, and the
//! accounts already resolved that a seed may refer to.

use vstd::prelude::*;

use crate::idl::IdlSeed;
use crate::text::{push_decimal, str_eq};

verus! {

/// An account address: 32 bytes.
pub type AccountIdBytes = [u8; 32];

/// The map from names to addresses that `entries` describes, a later entry
/// winning over an earlier one with the same name.
pub open spec fn map_of(entries: Seq<(String, AccountIdBytes)>) -> Map<Seq<char>, AccountIdBytes>
    decreases entries.len(),
{
    if entries.len() == 0 {
        Map::empty()
    } else {
        map_of(entries.drop_last()).insert(entries.last().0@, entries.last().1)
    }
}

/// No two entries share a name.
pub open spec fn distinct_names(entries: Seq<(String, AccountIdBytes)>) -> bool {
    forall|i: int, j: int|
        0 <= i < entries.len() && 0 <= j < entries.len() && i != j ==> (#[trigger] entries[i]).0@
            != (#[trigger] entries[j]).0@
}

proof fn lemma_map_of(entries: Seq<(String, AccountIdBytes)>)
    requires
        distinct_names(entries),
    ensures
        forall|j: int|
            0 <= j < entries.len() ==> map_of(entries).contains_key((#[trigger] entries[j]).0@)
                && map_of(entries)[entries[j].0@] == entries[j].1,
        forall|k: Seq<char>|
            #[trigger] map_of(entries).contains_key(k) ==> exists|j: int|
                0 <= j < entries.len() && (#[trigger] entries[j]).0@ == k,
    decreases entries.len(),
{
    if entries.len() > 0 {
        let prefix = entries.drop_last();
        assert(distinct_names(prefix)) by {
            assert forall|i: int, j: int|
                0 <= i < prefix.len() && 0 <= j < prefix.len() && i != j implies (#[trigger] prefix[i]).0@
                    != (#[trigger] prefix[j]).0@ by {
                assert(prefix[i] == entries[i] && prefix[j] == entries[j]);
            }
        }
        lemma_map_of(prefix);
        assert forall|k: Seq<char>| #[trigger] map_of(entries).contains_key(k) implies exists|j: int|
            0 <= j < entries.len() && (#[trigger] entries[j]).0@ == k by {
            if k == entries.last().0@ {
                assert(entries[entries.len() - 1].0@ == k);
            } else {
                assert(map_of(prefix).contains_key(k));
                let j = choose|j: int| 0 <= j < prefix.len() && (#[trigger] prefix[j]).0@ == k;
                assert(entries[j] == prefix[j]);
            }
        }
        assert forall|j: int| 0 <= j < entries.len() implies map_of(entries).contains_key(
            (#[trigger] entries[j]).0@,
        ) && map_of(entries)[entries[j].0@] == entries[j].1 by {
            if j < entries.len() - 1 {
                assert(entries[j] == prefix[j]);
                assert(entries[j].0@ != entries[entries.len() - 1].0@);
            }
        }
    }
}

/// The accounts resolved so far, by name: each name at most once.
pub struct AccountMap {
    entries: Vec<(String, AccountIdBytes)>,
}

impl View for AccountMap {
    type V = Map<Seq<char>, AccountIdBytes>;

    closed spec fn view(&self) -> Map<Seq<char>, AccountIdBytes> {
        map_of(self.entries@)
    }
}

impl AccountMap {
    #[verifier::type_invariant]
    closed spec fn names_are_distinct(&self) -> bool {
        distinct_names(self.entries@)
    }

    /// An empty map.
    pub fn new() -> (m: AccountMap)
        ensures
            m@ == Map::<Seq<char>, AccountIdBytes>::empty(),
    {
        let m = AccountMap { entries: Vec::new() };
        proof {
            assert(map_of(m.entries@) == Map::<Seq<char>, AccountIdBytes>::empty());
        }
        m
    }

    /// Position of the entry named `name`, if any.
    fn find(&self, name: &str) -> (r: Option<usize>)
        ensures
            match r {
                Some(j) => j < self.entries.len() && self.entries@[j as int].0@ == name@,
                None => forall|j: int| 0 <= j < self.entries.len() ==> (#[trigger] self.entries@[j]).0@ != name@,
            },
    {
        let mut j: usize = 0;
        while j < self.entries.len()
            invariant
                j <= self.entries.len(),
                forall|q: int| 0 <= q < j ==> (#[trigger] self.entries@[q]).0@ != name@,
            decreases self.entries.len() - j,
        {
            if str_eq(self.entries[j].0.as_str(), name) {
                return Some(j);
            }
            j = j + 1;
        }
        None
    }

    /// The address of the account named `name`, if it has been resolved.
    pub fn get(&self, name: &str) -> (r: Option<AccountIdBytes>)
        ensures
            r == (if self@.contains_key(name@) {
                Some(self@[name@])
            } else {
                None::<AccountIdBytes>
            }),
    {
        proof {
            use_type_invariant(self);
            lemma_map_of(self.entries@);
        }
        match self.find(name) {
            Some(j) => Some(self.entries[j].1),
            None => {
                proof {
                    if self@.contains_key(name@) {
                        let j = choose|j: int| 0 <= j < self.entries.len() && (#[trigger] self.entries@[j]).0@ == name@;
                        assert(self.entries@[j].0@ != name@);
                    }
                }
                None
            },
        }
    }

    /// Records `id` as the address of the account named `name`, replacing
    /// any address recorded before under that name.
    pub fn insert(&mut self, name: String, id: AccountIdBytes)
        ensures
            final(self)@ == old(self)@.insert(name@, id),
    {
        proof {
            use_type_invariant(&*self);
            lemma_map_of(self.entries@);
        }
        let ghost old_entries = self.entries@;
        match self.find(name.as_str()) {
            Some(j) => {
                let ghost k = name@;
                let mut entries: Vec<(String, AccountIdBytes)> = Vec::new();
                std::mem::swap(&mut entries, &mut self.entries);
                entries[j] = (name, id);
                proof {
                    let ne = entries@;
                    assert(ne == old_entries.update(j as int, ne[j as int]));
                    assert(distinct_names(ne)) by {
                        assert forall|a: int, b: int|
                            0 <= a < ne.len() && 0 <= b < ne.len() && a != b implies (#[trigger] ne[a]).0@
                                != (#[trigger] ne[b]).0@ by {
                            assert(ne[a].0@ == old_entries[a].0@);
                            assert(ne[b].0@ == old_entries[b].0@);
                        }
                    }
                    lemma_map_of(ne);
                    assert(map_of(ne) =~= map_of(old_entries).insert(k, id)) by {
                        assert forall|key: Seq<char>| #[trigger] map_of(ne).contains_key(key) implies map_of(
                            old_entries,
                        ).insert(k, id).contains_key(key) by {
                            let q = choose|q: int| 0 <= q < ne.len() && (#[trigger] ne[q]).0@ == key;
                            assert(ne[q].0@ == old_entries[q].0@);
                        }
                        assert forall|key: Seq<char>| #[trigger] map_of(old_entries).insert(k, id).contains_key(key)
                            implies map_of(ne).contains_key(key) && map_of(ne)[key] == map_of(
                            old_entries,
                        ).insert(k, id)[key] by {
                            if key == k {
                                assert(ne[j as int].0@ == k);
                            } else {
                                let q = choose|q: int| 0 <= q < old_entries.len() && (#[trigger] old_entries[q]).0@ == key;
                                assert(ne[q] == old_entries[q]);
                            }
                        }
                    }
                }
                self.entries = entries;
            },
            None => {
                let ghost k = name@;
                let mut entries: Vec<(String, AccountIdBytes)> = Vec::new();
                std::mem::swap(&mut entries, &mut self.entries);
                entries.push((name, id));
                proof {
                    let ne = entries@;
                    assert(ne.drop_last() =~= old_entries);
                    assert(distinct_names(ne)) by {
                        assert forall|a: int, b: int|
                            0 <= a < ne.len() && 0 <= b < ne.len() && a != b implies (#[trigger] ne[a]).0@
                                != (#[trigger] ne[b]).0@ by {
                            if a < old_entries.len() {
                                assert(ne[a] == old_entries[a]);
                            }
                            if b < old_entries.len() {
                                assert(ne[b] == old_entries[b]);
                            }
                        }
                    }
                }
                self.entries = entries;
            },
        }
    }
}

/// Reading an account map after recording `id` under `name` gives `id` back
/// for `name`, and what it gave before for every other name.
pub proof fn lemma_account_map_read_after_write(
    m: Map<Seq<char>, AccountIdBytes>,
    name: Seq<char>,
    id: AccountIdBytes,
    other: Seq<char>,
)
    ensures
        m.insert(name, id).contains_key(name),
        m.insert(name, id)[name] == id,
        other != name ==> m.insert(name, id).contains_key(other) == m.contains_key(other),
        other != name && m.contains_key(other) ==> m.insert(name, id)[other] == m[other],
{
}

/// `n` zero bytes.
pub open spec fn zeros(n: nat) -> Seq<u8> {
    Seq::new(n, |i: int| 0u8)
}

/// The 32 seed bytes that the IDL seeds `seeds` define, or the message of
/// the error that the derivation reports. Exactly one seed is supported: a
/// constant string of at most 32 UTF-8 bytes, right-padded with zeros, or
/// the address of an account already resolved; argument seeds are not
/// supported.
pub open spec fn pda_seed_bytes(seeds: Seq<IdlSeed>, accounts: Map<Seq<char>, AccountIdBytes>) -> Result<
    Seq<u8>,
    Seq<char>,
> {
    if seeds.len() != 1 {
        Err("Multi-seed PDAs not yet supported (got "@ + crate::text::decimal(seeds.len()) + " seeds)"@)
    } else {
        match seeds[0] {
            IdlSeed::Const { value } => {
                let bytes = vstd::utf8::encode_utf8(value@);
                if bytes.len() > 32 {
                    Err("Const seed '"@ + value@ + "' exceeds 32 bytes"@)
                } else {
                    Ok(bytes + zeros((32 - bytes.len()) as nat))
                }
            },
            IdlSeed::Account { path } => {
                if accounts.contains_key(path@) {
                    Ok(accounts[path@]@)
                } else {
                    Err(
                        "PDA seed references account '"@ + path@ + "' which hasn't been resolved yet"@,
                    )
                }
            },
            IdlSeed::Arg { path } => Err("Arg-based PDA seeds not yet supported (arg: "@ + path@ + ")"@),
        }
    }
}

/// A single seed gives its bytes unchanged: an account seed that is
/// resolved gives the recorded address byte for byte; a constant seed of at
/// most 32 UTF-8 bytes gives those bytes, in order, followed by zeros up to
/// 32 bytes; anything else, and any number of seeds but one, is refused.
pub proof fn lemma_pda_seed_bytes_are_the_seed(seeds: Seq<IdlSeed>, accounts: Map<Seq<char>, AccountIdBytes>)
    ensures
        seeds.len() != 1 ==> pda_seed_bytes(seeds, accounts) is Err,
        seeds.len() == 1 && seeds[0] is Arg ==> pda_seed_bytes(seeds, accounts) is Err,
        seeds.len() == 1 && (seeds[0] matches IdlSeed::Account { path } && accounts.contains_key(path@))
            ==> (pda_seed_bytes(seeds, accounts) matches Ok(b) && b.len() == 32 && forall|i: int|
            0 <= i < 32 ==> b[i] == accounts[seeds[0]->Account_path@]@[i]),
        seeds.len() == 1 && (seeds[0] matches IdlSeed::Account { path } && !accounts.contains_key(path@))
            ==> pda_seed_bytes(seeds, accounts) is Err,
        seeds.len() == 1 && (seeds[0] matches IdlSeed::Const { value }) ==> {
            let bytes = vstd::utf8::encode_utf8(seeds[0]->Const_value@);
            &&& bytes.len() <= 32 ==> (pda_seed_bytes(seeds, accounts) matches Ok(b) && b.len() == 32
                && (forall|i: int| 0 <= i < bytes.len() ==> b[i] == bytes[i])
                && (forall|i: int| bytes.len() <= i < 32 ==> b[i] == 0u8))
            &&& bytes.len() > 32 ==> pda_seed_bytes(seeds, accounts) is Err
        },
{
}

/// Computes the 32 seed bytes of a PDA from its IDL seed definitions and the
/// accounts resolved so far.
pub fn compute_pda_seed(seeds: &Vec<IdlSeed>, account_map: &AccountMap) -> (r: Result<AccountIdBytes, String>)
    ensures
        (match r {
            Ok(b) => Ok(b@),
            Err(m) => Err(m@),
        }) == pda_seed_bytes(seeds@, account_map@),
{
    if seeds.len() != 1 {
        let mut m = String::from_str("Multi-seed PDAs not yet supported (got ");
        push_decimal(&mut m, seeds.len() as u128);
        m.append(" seeds)");
        return Err(m);
    }
    match &seeds[0] {
        IdlSeed::Const { value } => {
            let src = value.as_str().as_bytes();
            if src.len() > 32 {
                let mut m = String::from_str("Const seed '");
                m.append(value.as_str());
                m.append("' exceeds 32 bytes");
                return Err(m);
            }
            let mut bytes: AccountIdBytes = [0u8; 32];
            let mut i: usize = 0;
            while i < src.len()
                invariant
                    src.len() <= 32,
                    i <= src.len(),
                    forall|q: int| 0 <= q < i ==> bytes@[q] == src@[q],
                    forall|q: int| src.len() <= q < 32 ==> bytes@[q] == 0u8,
                decreases src.len() - i,
            {
                bytes[i] = src[i];
                i = i + 1;
            }
            proof {
                assert(bytes@ =~= src@ + zeros((32 - src@.len()) as nat));
            }
            Ok(bytes)
        },
        IdlSeed::Account { path } => match account_map.get(path.as_str()) {
            Some(id) => Ok(id),
            None => {
                let mut m = String::from_str("PDA seed references account '");
                m.append(path.as_str());
                m.append("' which hasn't been resolved yet");
                Err(m)
            },
        },
        IdlSeed::Arg { path } => {
            let mut m = String::from_str("Arg-based PDA seeds not yet supported (arg: ");
            m.append(path.as_str());
            m.append(")");
            Err(m)
        },
    }
}

} // verus!
