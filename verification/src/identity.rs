//! Interface identity resolution: interface name to IP addresses (zero or
//! more) and MAC address (zero or one).
//!
//! The capability has two variants. `Unimplemented` is the honest stub: it
//! resolves every name to no addresses and never fails. `Table` resolves from
//! a prepared list of identities, first matching row winning, so a real
//! enumeration can be plugged in later without changing the snapshot schema.

use vstd::prelude::*;

verus! {

/// The resolved identity of one interface.
pub struct InterfaceIdentity {
    pub name: String,
    pub ip_addresses: Vec<String>,
    pub mac_address: Option<String>,
}

/// The interface identity capability.
pub enum IdentityResolver {
    Unimplemented,
    Table(Vec<InterfaceIdentity>),
}

/// The character sequences of a sequence of strings.
pub open spec fn seq_views(s: Seq<String>) -> Seq<Seq<char>> {
    s.map_values(|x: String| x@)
}

/// The character sequence of an optional string.
pub open spec fn opt_view(o: Option<String>) -> Option<Seq<char>> {
    match o {
        Some(s) => Some(s@),
        None => None,
    }
}

/// First row of `rows` whose name is `k`, if any.
pub open spec fn table_lookup(rows: Seq<InterfaceIdentity>, k: Seq<char>) -> Option<
    InterfaceIdentity,
>
    decreases rows.len(),
{
    if rows.len() == 0 {
        None
    } else if rows[0].name@ == k {
        Some(rows[0])
    } else {
        table_lookup(rows.drop_first(), k)
    }
}

/// Index of the first row of `rows` named `name`, if any.
fn find_row(rows: &Vec<InterfaceIdentity>, name: &String) -> (r: Option<usize>)
    ensures
        match r {
            Some(i) => i < rows@.len() && table_lookup(rows@, name@) == Some(rows@[i as int]),
            None => table_lookup(rows@, name@) is None,
        },
{
    let n = rows.len();
    let mut i: usize = 0;
    proof {
        assert(rows@.skip(0) =~= rows@);
    }
    while i < n
        invariant
            i <= n,
            n == rows@.len(),
            table_lookup(rows@, name@) == table_lookup(rows@.skip(i as int), name@),
        decreases n - i,
    {
        proof {
            assert(rows@.skip(i as int)[0] == rows@[i as int]);
        }
        if rows[i].name == *name {
            return Some(i);
        }
        proof {
            assert(rows@.skip(i as int).drop_first() =~= rows@.skip(i as int + 1));
        }
        i += 1;
    }
    None
}

/// A copy of a vector of strings, element for element.
fn clone_strings(v: &Vec<String>) -> (r: Vec<String>)
    ensures
        r@ == v@,
{
    let mut r: Vec<String> = Vec::new();
    let mut i: usize = 0;
    while i < v.len()
        invariant
            i <= v@.len(),
            r@ == v@.take(i as int),
        decreases v@.len() - i,
    {
        r.push(v[i].clone());
        proof {
            assert(r@ =~= v@.take(i as int + 1));
        }
        i += 1;
    }
    proof {
        assert(v@.take(v@.len() as int) =~= v@);
    }
    r
}

impl IdentityResolver {
    /// The IP addresses this capability resolves `k` to.
    pub open spec fn spec_ips(&self, k: Seq<char>) -> Seq<Seq<char>> {
        match self {
            IdentityResolver::Unimplemented => Seq::empty(),
            IdentityResolver::Table(rows) => match table_lookup(rows@, k) {
                Some(row) => seq_views(row.ip_addresses@),
                None => Seq::empty(),
            },
        }
    }

    /// The MAC address this capability resolves `k` to.
    pub open spec fn spec_mac(&self, k: Seq<char>) -> Option<Seq<char>> {
        match self {
            IdentityResolver::Unimplemented => None,
            IdentityResolver::Table(rows) => match table_lookup(rows@, k) {
                Some(row) => opt_view(row.mac_address),
                None => None,
            },
        }
    }

    /// IP addresses associated with the interface named `name`; zero or more,
    /// never an error. The stub resolves none.
    pub fn get_interface_ips(&self, name: &String) -> (r: Vec<String>)
        ensures
            seq_views(r@) == self.spec_ips(name@),
    {
        proof {
            assert(seq_views(Seq::<String>::empty()) =~= Seq::<Seq<char>>::empty());
        }
        match self {
            IdentityResolver::Unimplemented => Vec::new(),
            IdentityResolver::Table(rows) => match find_row(rows, name) {
                Some(i) => clone_strings(&rows[i].ip_addresses),
                None => Vec::new(),
            },
        }
    }

    /// MAC address associated with the interface named `name`; absent is a
    /// valid, never-erroring result. The stub resolves none.
    pub fn get_mac_address(&self, name: &String) -> (r: Option<String>)
        ensures
            opt_view(r) == self.spec_mac(name@),
    {
        match self {
            IdentityResolver::Unimplemented => None,
            IdentityResolver::Table(rows) => match find_row(rows, name) {
                Some(i) => match &rows[i].mac_address {
                    Some(m) => Some(m.clone()),
                    None => None,
                },
                None => None,
            },
        }
    }
}

} // verus!
