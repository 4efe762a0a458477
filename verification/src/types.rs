//! Plain value types shared by the client and the vault: network names,
//! public keys, coin amounts, and application permission flags.

use vstd::prelude::*;

verus! {

/// Width in bytes of a network address.
pub const XOR_NAME_LEN: usize = 32;

/// A network address: the name of an account's root directory, either
/// derived from credentials or generated at random.
#[derive(Clone, Copy, Debug)]
pub struct XorName(pub [u8; 32]);

impl View for XorName {
    type V = Seq<u8>;

    open spec fn view(&self) -> Seq<u8> {
        self.0@
    }
}

impl PartialEq for XorName {
    fn eq(&self, other: &XorName) -> bool {
        bytes32_eq(&self.0, &other.0)
    }
}

impl vstd::std_specs::cmp::PartialEqSpecImpl for XorName {
    open spec fn obeys_eq_spec() -> bool {
        true
    }

    open spec fn eq_spec(&self, other: &XorName) -> bool {
        self.0@ == other.0@
    }
}

/// A public key identifying an account owner or an authorized application.
#[derive(Clone, Copy, Debug)]
pub struct PublicKey(pub [u8; 32]);

impl View for PublicKey {
    type V = Seq<u8>;

    open spec fn view(&self) -> Seq<u8> {
        self.0@
    }
}

impl PartialEq for PublicKey {
    fn eq(&self, other: &PublicKey) -> bool {
        bytes32_eq(&self.0, &other.0)
    }
}

impl vstd::std_specs::cmp::PartialEqSpecImpl for PublicKey {
    open spec fn obeys_eq_spec() -> bool {
        true
    }

    open spec fn eq_spec(&self, other: &PublicKey) -> bool {
        self.0@ == other.0@
    }
}

impl PublicKey {
    /// The network address owned by this key.
    pub fn into_name(&self) -> (r: XorName)
        ensures
            r@ == self@,
    {
        XorName(self.0)
    }
}

/// An amount of coins, counted in indivisible units.
pub type Coins = u64;

/// Permissions an application holds on the user's account.
#[derive(Clone, Copy, Debug, PartialEq, Eq, Structural)]
pub struct AppPermissions {
    /// Whether the application may transfer coins from the balance.
    pub transfer_coins: bool,
}

/// Compares two 32-byte values element by element.
pub fn bytes32_eq(a: &[u8; 32], b: &[u8; 32]) -> (r: bool)
    ensures
        r <==> a@ == b@,
{
    let r = bytes_eq(a.as_slice(), b.as_slice());
    proof {
        assert(a@ == b@ ==> a@ =~= b@);
    }
    r
}

/// Compares two 48-byte values element by element.
pub fn bytes48_eq(a: &[u8; 48], b: &[u8; 48]) -> (r: bool)
    ensures
        r <==> a@ == b@,
{
    let r = bytes_eq(a.as_slice(), b.as_slice());
    proof {
        assert(a@ == b@ ==> a@ =~= b@);
    }
    r
}

/// Compares two 64-byte values element by element.
pub fn bytes64_eq(a: &[u8; 64], b: &[u8; 64]) -> (r: bool)
    ensures
        r <==> a@ == b@,
{
    let r = bytes_eq(a.as_slice(), b.as_slice());
    proof {
        assert(a@ == b@ ==> a@ =~= b@);
    }
    r
}

/// Compares two byte slices element by element.
pub fn bytes_eq(a: &[u8], b: &[u8]) -> (r: bool)
    ensures
        r <==> a@ == b@,
{
    let n = a.len();
    if n != b.len() {
        return false;
    }
    let mut i: usize = 0;
    while i < n
        invariant
            n == a@.len() == b@.len(),
            i <= n,
            forall|j: int| 0 <= j < i ==> a@[j] == b@[j],
        decreases n - i,
    {
        if *vstd::slice::slice_index_get(a, i) != *vstd::slice::slice_index_get(b, i) {
            assert(a@[i as int] != b@[i as int]);
            return false;
        }
        i += 1;
    }
    assert(a@ =~= b@);
    true
}

/// Appends `b` to `out`.
pub(crate) fn push_bytes(out: &mut Vec<u8>, b: &[u8])
    ensures
        final(out)@ == old(out)@ + b@,
{
    let n = b.len();
    let mut i: usize = 0;
    while i < n
        invariant
            n == b@.len(),
            i <= n,
            out@ == old(out)@ + b@.subrange(0, i as int),
        decreases n - i,
    {
        out.push(*vstd::slice::slice_index_get(b, i));
        proof {
            assert(out@ =~= old(out)@ + b@.subrange(0, i + 1));
        }
        i += 1;
    }
    proof {
        assert(out@ =~= old(out)@ + b@);
    }
}

/// Copies 32 bytes of `b` starting at `off` into an array.
pub(crate) fn read_array_32(b: &[u8], off: usize) -> (r: [u8; 32])
    requires
        off + 32 <= b@.len(),
    ensures
        r@ == b@.subrange(off as int, off as int + 32),
{
    let n = b.len();
    let mut out = [0u8; 32];
    let mut i: usize = 0;
    while i < 32
        invariant
            n == b@.len(),
            off + 32 <= n,
            i <= 32,
            forall|j: int| 0 <= j < i ==> out@[j] == b@[off + j],
        decreases 32 - i,
    {
        out[i] = *vstd::slice::slice_index_get(b, off + i);
        i += 1;
    }
    proof {
        assert(out@ =~= b@.subrange(off as int, off as int + 32));
    }
    out
}

} // verus!
