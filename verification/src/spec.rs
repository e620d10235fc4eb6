//! The rules that a chain follows, and the gas tables that come with them.
use vstd::prelude::*;

verus! {

/// Number of the latest hardfork there are rules for. The first, Frontier, is zero.
pub const LATEST_HARDFORK: u8 = 14;

/// The rules of an ArbOS version: the version and the hardfork that it follows.
#[derive(Clone, Copy, Debug, PartialEq, Eq, Structural)]
pub struct ArbSpecId {
    arbos_version: u64,
    eth_spec: u8,
}

impl ArbSpecId {
    /// There are rules for the hardfork.
    #[verifier::type_invariant]
    closed spec fn is_known(self) -> bool {
        self.eth_spec <= LATEST_HARDFORK
    }

    /// The ArbOS version.
    pub closed spec fn version(self) -> u64 {
        self.arbos_version
    }

    /// The hardfork's number.
    pub closed spec fn hardfork(self) -> u8 {
        self.eth_spec
    }

    /// The rules of an ArbOS version that follows a hardfork, if there are any for it.
    pub fn new(arbos_version: u64, eth_spec: u8) -> (r: Option<ArbSpecId>)
        ensures
            r is Some <==> eth_spec <= LATEST_HARDFORK,
            r matches Some(spec) ==> spec.version() == arbos_version && spec.hardfork() == eth_spec,
    {
        if eth_spec <= LATEST_HARDFORK {
            Some(ArbSpecId { arbos_version, eth_spec })
        } else {
            None
        }
    }

    /// The ArbOS version.
    pub fn arbos_version(self) -> (r: u64)
        ensures
            r == self.version(),
    {
        self.arbos_version
    }

    /// The number of the hardfork that the version follows.
    pub fn into_eth_spec(self) -> (r: u8)
        ensures
            r == self.hardfork(),
            r <= LATEST_HARDFORK,
    {
        proof {
            use_type_invariant(&self);
        }
        self.eth_spec
    }
}

/// The static gas cost of each instruction under a hardfork.
pub uninterp spec fn hardfork_gas_table(hardfork: u8) -> Seq<u16>;

/// The dynamic gas constants of a hardfork.
pub uninterp spec fn hardfork_gas_params(hardfork: u8) -> Seq<u64>;

/// The static gas cost of each instruction under a hardfork.
///
/// Calls `revm::interpreter::instructions::gas_table_spec`. Trusted: the table depends on
/// the hardfork alone, and is called `hardfork_gas_table`. Its entries are not stated.
#[verifier::external_body]
pub(crate) fn mainnet_gas_table(hardfork: u8) -> (r: [u16; 256])
    requires
        hardfork <= LATEST_HARDFORK,
    ensures
        r@ == hardfork_gas_table(hardfork),
{
    let spec = revm::primitives::hardfork::SpecId::try_from_u8(hardfork).unwrap();
    revm::interpreter::instructions::gas_table_spec(spec)
}

/// The dynamic gas constants of a hardfork.
///
/// Calls `revm::context_interface::cfg::GasParams::new_spec`. Trusted: the constants depend
/// on the hardfork alone, and are called `hardfork_gas_params`. Their values are not
/// stated.
#[verifier::external_body]
fn mainnet_gas_params(hardfork: u8) -> (r: [u64; 256])
    requires
        hardfork <= LATEST_HARDFORK,
    ensures
        r@ == hardfork_gas_params(hardfork),
{
    let spec = revm::primitives::hardfork::SpecId::try_from_u8(hardfork).unwrap();
    *revm::context_interface::cfg::GasParams::new_spec(spec).table()
}

/// A table of dynamic gas constants.
#[derive(Clone, Copy, Debug)]
pub struct GasParams {
    pub table: [u64; 256],
}

impl View for GasParams {
    type V = Seq<u64>;

    open spec fn view(&self) -> Seq<u64> {
        self.table@
    }
}

impl GasParams {
    /// The default constants of the hardfork that `spec` follows.
    pub fn new_spec(spec: ArbSpecId) -> (r: GasParams)
        ensures
            r@ == hardfork_gas_params(spec.hardfork()),
    {
        GasParams { table: mainnet_gas_params(spec.into_eth_spec()) }
    }

    /// Whether two tables hold the same constants.
    pub fn same(&self, other: &GasParams) -> (r: bool)
        ensures
            r == (self@ == other@),
    {
        let mut i: usize = 0;
        while i < 256
            invariant
                i <= 256,
                forall|j: int| 0 <= j < i ==> self@[j] == other@[j],
            decreases 256 - i,
        {
            if self.table[i] != other.table[i] {
                return false;
            }
            i = i + 1;
        }
        assert(self@ =~= other@);
        true
    }
}

/// There are rules for the hardforks from zero to fourteen, each under its own number, with any
/// ArbOS version.
pub proof fn lemma_known_hardforks(
    arbos_version: u64,
    eth_spec: u8,
    r: Option<ArbSpecId>,
    version: u64,
    hardfork: u8,
)
    requires
        call_ensures(ArbSpecId::new, (arbos_version, eth_spec), r),
        r matches Some(spec) ==> call_ensures(ArbSpecId::arbos_version, (spec,), version)
            && call_ensures(ArbSpecId::into_eth_spec, (spec,), hardfork),
    ensures
        r is Some <==> eth_spec <= 14,
        r is Some ==> version == arbos_version && hardfork == eth_spec,
{
}

} // verus!
