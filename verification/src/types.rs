//! Chain names and contract addresses: validated strings whose identity is
//! their character sequence.

use crate::store::{StoreKey, StoreValue};
use vstd::prelude::*;

verus! {

/// The name of a chain known to the gateway.
#[derive(Debug, PartialEq, Eq)]
pub struct ChainName {
    name: String,
}

impl View for ChainName {
    type V = Seq<char>;

    closed spec fn view(&self) -> Seq<char> {
        self.name@
    }
}

impl ChainName {
    pub fn new(name: String) -> (r: Self)
        ensures
            r@ == name@,
    {
        ChainName { name }
    }

    pub fn as_string(&self) -> (r: &String)
        ensures
            r@ == self@,
    {
        &self.name
    }

    /// Whether the two names are the same chain.
    pub fn same(&self, other: &Self) -> (r: bool)
        ensures
            r == (self@ == other@),
    {
        self.name == other.name
    }
}

impl Clone for ChainName {
    fn clone(&self) -> (r: Self)
        ensures
            r@ == self@,
    {
        ChainName { name: self.name.clone() }
    }
}

impl StoreKey for ChainName {
    fn key_eq(&self, other: &Self) -> (r: bool) {
        self.same(other)
    }

    fn key_dup(&self) -> (r: Self) {
        self.clone()
    }
}

/// The address of an account or contract on some chain.
#[derive(Debug, PartialEq, Eq)]
pub struct Address {
    addr: String,
}

impl View for Address {
    type V = Seq<char>;

    closed spec fn view(&self) -> Seq<char> {
        self.addr@
    }
}

impl Address {
    pub fn new(addr: String) -> (r: Self)
        ensures
            r@ == addr@,
    {
        Address { addr }
    }

    pub fn as_string(&self) -> (r: &String)
        ensures
            r@ == self@,
    {
        &self.addr
    }

    /// Whether the two addresses are the same.
    pub fn same(&self, other: &Self) -> (r: bool)
        ensures
            r == (self@ == other@),
    {
        self.addr == other.addr
    }
}

impl Clone for Address {
    fn clone(&self) -> (r: Self)
        ensures
            r@ == self@,
    {
        Address { addr: self.addr.clone() }
    }
}

impl StoreValue for Address {
    fn val_dup(&self) -> (r: Self) {
        self.clone()
    }
}

/// Whether two byte strings are equal.
pub fn bytes_eq(a: &Vec<u8>, b: &Vec<u8>) -> (r: bool)
    ensures
        r == (a@ == b@),
{
    if a.len() != b.len() {
        return false;
    }
    let n = a.len();
    let mut i: usize = 0;
    while i < n
        invariant
            n == a.len() == b.len(),
            i <= n,
            forall|j: int| 0 <= j < i ==> a@[j] == b@[j],
        decreases n - i,
    {
        if a[i] != b[i] {
            return false;
        }
        i = i + 1;
    }
    proof {
        assert(a@ =~= b@);
    }
    true
}

} // verus!
