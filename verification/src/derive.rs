use vstd::prelude::*;
use vstd::bytes::spec_u64_to_le_bytes;
use vstd::bytes::u64_to_le_bytes;
use anchor_lang::prelude::Pubkey;
use crate::address::Address;
use crate::address::Key;
use crate::error::CustodyError;

verus! {

/// The tag that opens the seeds of a derived address and keeps the addresses
/// of different kinds of account apart.
#[derive(Clone, Copy, Debug, PartialEq, Eq, Structural)]
pub enum Namespace {
    /// The state record of a vault; its tag is `state`.
    State,
    /// The account that holds a vault's balance; its tag is `vault`.
    Vault,
    /// An escrow; its tag is `escrow`.
    Escrow,
}

impl Namespace {
    /// The bytes of the tag, in ASCII.
    pub open spec fn tag(self) -> Seq<u8> {
        match self {
            Namespace::State => seq![115u8, 116u8, 97u8, 116u8, 101u8],
            Namespace::Vault => seq![118u8, 97u8, 117u8, 108u8, 116u8],
            Namespace::Escrow => seq![101u8, 115u8, 99u8, 114u8, 111u8, 119u8],
        }
    }

    /// The bytes of the tag, in ASCII.
    pub fn tag_bytes(&self) -> (v: Vec<u8>)
        ensures
            v@ == self.tag(),
    {
        let v: Vec<u8> = match self {
            Namespace::State => vec![115u8, 116u8, 97u8, 116u8, 101u8],
            Namespace::Vault => vec![118u8, 97u8, 117u8, 108u8, 116u8],
            Namespace::Escrow => vec![101u8, 115u8, 99u8, 114u8, 111u8, 119u8],
        };
        assert(v@ =~= self.tag());
        v
    }
}

/// The seeds of a derivation without the bump: the tag, the 32 bytes of the
/// parent key and, where there is one, the eight bytes of the numeric seed,
/// least significant first.
pub open spec fn seed_parts(namespace: Namespace, parent: Seq<u8>, seed: Option<u64>) -> Seq<
    Seq<u8>,
> {
    match seed {
        Some(n) => seq![namespace.tag(), parent, spec_u64_to_le_bytes(n)],
        None => seq![namespace.tag(), parent],
    }
}

/// The seeds of a derivation with the bump as a single trailing byte.
pub open spec fn signer_parts(
    namespace: Namespace,
    parent: Seq<u8>,
    seed: Option<u64>,
    bump: u8,
) -> Seq<Seq<u8>> {
    seed_parts(namespace, parent, seed).push(seq![bump])
}

/// The byte sequences that a list of seeds holds.
pub open spec fn seed_views(seeds: Seq<Vec<u8>>) -> Seq<Seq<u8>> {
    Seq::new(seeds.len(), |i: int| seeds[i]@)
}

/// The address that `Pubkey::create_program_address` gives for a list of
/// seeds and a program: `None` where it reports an error, which it does when
/// the hash of the seeds lies on the curve and so could have a private key,
/// and when there are more than 16 seeds or one is longer than 32 bytes.
pub uninterp spec fn program_address(seeds: Seq<Seq<u8>>, program: Seq<u8>) -> Option<Seq<u8>>;

/// Calls `Pubkey::create_program_address` on the seeds as they are given, the
/// bump among them. Nothing of the address is proved: the contract names
/// the outcome `program_address` and says only that equal seeds and program
/// give an equal outcome, every error being `None`.
#[verifier::external_body]
fn create_program_address(seeds: &Vec<Vec<u8>>, program: &Address) -> (r: Option<Address>)
    ensures
        match r {
            Some(a) => program_address(seed_views(seeds@), program@) == Some(a@),
            None => program_address(seed_views(seeds@), program@) is None,
        },
{
    let parts: Vec<&[u8]> = seeds.iter().map(|s| s.as_slice()).collect();
    match Pubkey::create_program_address(&parts, &Pubkey::new_from_array(program.bytes)) {
        Ok(key) => Some(Address { bytes: key.to_bytes() }),
        Err(_) => None,
    }
}

/// Calls `Pubkey::try_find_program_address`, which appends one bump byte to
/// the seeds and tries `create_program_address` with the bumps 255, 254, ...
/// down to 1, returning the first address that is valid together with its
/// bump. The contract says this over `program_address`: the bump returned is
/// at least 1, the address is the one that bump gives, and no greater bump
/// gives any; `None` means that no bump from 1 to 255 gives an address. The
/// bump 0 is never tried.
#[verifier::external_body]
fn try_find_program_address(seeds: &Vec<Vec<u8>>, program: &Address) -> (r: Option<(Address, u8)>)
    requires
        seeds@.len() < 16,
        forall|i: int| 0 <= i < seeds@.len() ==> seeds@[i]@.len() <= 32,
    ensures
        match r {
            Some((a, b)) => {
                &&& b >= 1
                &&& program_address(seed_views(seeds@).push(seq![b]), program@) == Some(a@)
                &&& forall|c: u8|
                    c > b ==> program_address(
                        #[trigger] seed_views(seeds@).push(seq![c]),
                        program@,
                    ) is None
            },
            None => forall|c: u8|
                c >= 1 ==> program_address(
                    #[trigger] seed_views(seeds@).push(seq![c]),
                    program@,
                ) is None,
        },
{
    let parts: Vec<&[u8]> = seeds.iter().map(|s| s.as_slice()).collect();
    match Pubkey::try_find_program_address(&parts, &Pubkey::new_from_array(program.bytes)) {
        Some((key, bump)) => Some((Address { bytes: key.to_bytes() }, bump)),
        None => None,
    }
}

/// The address derived for a program from a namespace, a parent key, an
/// optional numeric seed and a given bump; `None` where that bump gives no
/// valid address.
pub open spec fn derived_at(
    program: Seq<u8>,
    namespace: Namespace,
    parent: Seq<u8>,
    seed: Option<u64>,
    bump: u8,
) -> Option<Seq<u8>> {
    program_address(signer_parts(namespace, parent, seed, bump), program)
}

/// `bump` is the first bump, scanning from 255 down to 1, that gives a valid
/// address.
pub open spec fn is_canonical_bump(
    program: Seq<u8>,
    namespace: Namespace,
    parent: Seq<u8>,
    seed: Option<u64>,
    bump: u8,
) -> bool {
    &&& bump >= 1
    &&& derived_at(program, namespace, parent, seed, bump) is Some
    &&& forall|c: u8| c > bump ==> #[trigger] derived_at(program, namespace, parent, seed, c) is None
}

/// The derived address and its bump: the address that the first valid bump
/// gives, scanning from 255 down to 1, together with that bump; `None` where
/// no bump in that range gives a valid address.
pub open spec fn derivation(
    program: Seq<u8>,
    namespace: Namespace,
    parent: Seq<u8>,
    seed: Option<u64>,
) -> Option<(Seq<u8>, u8)> {
    if exists|b: u8| is_canonical_bump(program, namespace, parent, seed, b) {
        let b = choose|b: u8| is_canonical_bump(program, namespace, parent, seed, b);
        Some((derived_at(program, namespace, parent, seed, b)->0, b))
    } else {
        None
    }
}

/// What an address is derived from, apart from the program and the bump.
#[derive(Clone, Copy, Debug, PartialEq, Eq)]
pub struct Seeds {
    pub namespace: Namespace,
    pub parent: Address,
    pub seed: Option<u64>,
}

impl Seeds {
    /// The seeds without the bump.
    pub open spec fn parts(self) -> Seq<Seq<u8>> {
        seed_parts(self.namespace, self.parent@, self.seed)
    }

    /// The seeds without the bump, byte for byte.
    pub fn to_parts(&self) -> (v: Vec<Vec<u8>>)
        ensures
            seed_views(v@) == self.parts(),
            v@.len() < 16,
            forall|i: int| 0 <= i < v@.len() ==> v@[i]@.len() <= 32,
    {
        let mut v: Vec<Vec<u8>> = Vec::new();
        v.push(self.namespace.tag_bytes());
        v.push(self.parent.to_vec());
        match self.seed {
            Some(n) => {
                v.push(u64_to_le_bytes(n));
            },
            None => {},
        }
        assert(seed_views(v@) =~= self.parts());
        v
    }

    /// The seeds with the bump as a single trailing byte: what has to be
    /// shown, byte for byte, to act as the derived address.
    pub fn to_signer_parts(&self, bump: u8) -> (v: Vec<Vec<u8>>)
        ensures
            seed_views(v@) == signer_parts(self.namespace, self.parent@, self.seed, bump),
    {
        let mut v = self.to_parts();
        let ghost before = v@;
        let mut last: Vec<u8> = Vec::new();
        last.push(bump);
        assert(last@ =~= seq![bump]);
        v.push(last);
        assert(seed_views(v@) =~= seed_views(before).push(seq![bump]));
        v
    }
}

/// `r` is what `derive` returns for a program and seeds: the derived address
/// and its bump where there is one, else `DerivationExhausted`.
pub open spec fn is_derive_result(
    program: Seq<u8>,
    seeds: Seeds,
    r: Result<(Address, u8), CustodyError>,
) -> bool {
    match r {
        Ok((a, b)) => derivation(program, seeds.namespace, seeds.parent@, seeds.seed) == Some(
            (a@, b),
        ),
        Err(e) => e == CustodyError::DerivationExhausted && derivation(
            program,
            seeds.namespace,
            seeds.parent@,
            seeds.seed,
        ) is None,
    }
}

/// Derives the address of an account and its bump: the first bump, scanning
/// from 255 down to 1, that gives a valid address. The bump is to be kept with
/// the record that owns the account, so that `rederive` can reproduce the
/// address without scanning.
pub fn derive(program: &Address, seeds: &Seeds) -> (r: Result<(Address, u8), CustodyError>)
    ensures
        is_derive_result(program@, *seeds, r),
{
    let parts = seeds.to_parts();
    let found = try_find_program_address(&parts, program);
    proof {
        assert forall|c: u8|
            #[trigger] derived_at(program@, seeds.namespace, seeds.parent@, seeds.seed, c)
                == program_address(seed_views(parts@).push(seq![c]), program@) by {}
    }
    match found {
        Some((a, b)) => {
            proof {
                lemma_canonical_bump_unique(program@, seeds.namespace, seeds.parent@, seeds.seed, b);
            }
            Ok((a, b))
        },
        None => {
            proof {
                assert forall|c: u8|
                    !is_canonical_bump(
                        program@,
                        seeds.namespace,
                        seeds.parent@,
                        seeds.seed,
                        c,
                    ) by {
                    if c >= 1 {
                        assert(program_address(seed_views(parts@).push(seq![c]), program@) is None);
                    }
                }
            }
            Err(CustodyError::DerivationExhausted)
        },
    }
}

/// Reproduces a derived address from its seeds and a recorded bump, without
/// scanning; `None` where that bump gives no valid address.
pub fn rederive(program: &Address, seeds: &Seeds, bump: u8) -> (r: Option<Address>)
    ensures
        match r {
            Some(a) => derived_at(program@, seeds.namespace, seeds.parent@, seeds.seed, bump)
                == Some(a@),
            None => derived_at(program@, seeds.namespace, seeds.parent@, seeds.seed, bump) is None,
        },
{
    let parts = seeds.to_signer_parts(bump);
    create_program_address(&parts, program)
}

/// At most one bump is canonical, so the derivation is that bump and its
/// address.
pub proof fn lemma_canonical_bump_unique(
    program: Seq<u8>,
    namespace: Namespace,
    parent: Seq<u8>,
    seed: Option<u64>,
    bump: u8,
)
    requires
        is_canonical_bump(program, namespace, parent, seed, bump),
    ensures
        derivation(program, namespace, parent, seed) == Some(
            (derived_at(program, namespace, parent, seed, bump)->0, bump),
        ),
{
    let b = choose|b: u8| is_canonical_bump(program, namespace, parent, seed, b);
    assert(is_canonical_bump(program, namespace, parent, seed, b));
    if b > bump {
        assert(derived_at(program, namespace, parent, seed, b) is None);
    }
    if bump > b {
        assert(derived_at(program, namespace, parent, seed, bump) is None);
    }
}

/// Deriving is a function of its inputs, and the bump it returns reproduces
/// the address it returns: whenever the derivation for a program, namespace,
/// parent and seed is an address with a bump, re-deriving with that bump
/// gives the same address.
pub proof fn lemma_rederive_matches_derive(
    program: Seq<u8>,
    namespace: Namespace,
    parent: Seq<u8>,
    seed: Option<u64>,
)
    ensures
        derivation(program, namespace, parent, seed) matches Some((address, bump)) ==> {
            &&& bump >= 1
            &&& derived_at(program, namespace, parent, seed, bump) == Some(address)
        },
{
    if exists|b: u8| is_canonical_bump(program, namespace, parent, seed, b) {
        let b = choose|b: u8| is_canonical_bump(program, namespace, parent, seed, b);
        assert(is_canonical_bump(program, namespace, parent, seed, b));
    }
}

/// Deriving is deterministic: two results of `derive` for the same program
/// and the same seeds are the same address with the same bump, or the same
/// error.
pub proof fn lemma_derive_deterministic(
    program: Seq<u8>,
    seeds: Seeds,
    first: Result<(Address, u8), CustodyError>,
    second: Result<(Address, u8), CustodyError>,
)
    requires
        is_derive_result(program, seeds, first),
        is_derive_result(program, seeds, second),
    ensures
        first == second,
{
    if let Ok((a, b)) = first {
        a.lemma_view();
    }
}

/// What is shown to the custody service to move value out of an account: the
/// signature of a user, which the caller has verified, or the seeds and bump
/// from which a derived address is reproduced.
#[derive(Clone, Copy, Debug, PartialEq, Eq)]
pub enum Authority {
    /// The holder signed the request itself.
    Signer { key: Address },
    /// The program shows the seeds and bump of a derived address.
    Derived { program: Address, seeds: Seeds, bump: u8 },
}

impl Authority {
    /// The authority stands for `holder`: it is the holder's signature, or
    /// its seeds and bump derive exactly the holder's address.
    pub open spec fn proves(self, holder: Seq<u8>) -> bool {
        match self {
            Authority::Signer { key } => key@ == holder,
            Authority::Derived { program, seeds, bump } => derived_at(
                program@,
                seeds.namespace,
                seeds.parent@,
                seeds.seed,
                bump,
            ) == Some(holder),
        }
    }

    /// Decides whether the authority stands for `holder`, re-deriving the
    /// address where the authority is a derived one. A wrong bump, a wrong
    /// parent key or a wrong seed gives `false`.
    pub fn authorizes(&self, holder: &Address) -> (r: bool)
        ensures
            r == self.proves(holder@),
    {
        match self {
            Authority::Signer { key } => key.same(holder),
            Authority::Derived { program, seeds, bump } => {
                match rederive(program, seeds, *bump) {
                    Some(a) => a.same(holder),
                    None => false,
                }
            },
        }
    }
}

} // verus!
