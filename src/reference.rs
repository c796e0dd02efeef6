use vstd::prelude::*;
use crate::types::{Address, SwapDirection};

verus! {

/// A known router contract and the name of the exchange behind it.
#[derive(Clone, Debug)]
pub struct RouterEntry {
    pub address: Address,
    pub name: String,
}

pub ghost struct RouterEntryView {
    pub address: Seq<u8>,
    pub name: Seq<char>,
}

impl View for RouterEntry {
    type V = RouterEntryView;

    open spec fn view(&self) -> RouterEntryView {
        RouterEntryView { address: self.address@, name: self.name@ }
    }
}

/// A 4-byte method selector and the swap direction it stands for.
#[derive(Clone, Copy, Debug)]
pub struct MethodSignature {
    pub selector: [u8; 4],
    pub direction: SwapDirection,
}

pub ghost struct MethodSignatureView {
    pub selector: Seq<u8>,
    pub direction: SwapDirection,
}

impl View for MethodSignature {
    type V = MethodSignatureView;

    open spec fn view(&self) -> MethodSignatureView {
        MethodSignatureView { selector: self.selector@, direction: self.direction }
    }
}

/// The read-only tables that classification and flagging consult.
#[derive(Clone, Debug)]
pub struct ReferenceData {
    pub routers: Vec<RouterEntry>,
    pub signatures: Vec<MethodSignature>,
    /// Known searcher addresses; kept as reference data, not consulted by
    /// the flagger.
    pub searchers: Vec<Address>,
}

pub ghost struct ReferenceView {
    pub routers: Seq<RouterEntryView>,
    pub signatures: Seq<MethodSignatureView>,
    pub searchers: Seq<Seq<u8>>,
}

impl View for ReferenceData {
    type V = ReferenceView;

    open spec fn view(&self) -> ReferenceView {
        ReferenceView {
            routers: self.routers@.map_values(|e: RouterEntry| e@),
            signatures: self.signatures@.map_values(|m: MethodSignature| m@),
            searchers: self.searchers@.map_values(|a: Address| a@),
        }
    }
}

/// The exchange name of the first router entry at address `a`, if any.
pub open spec fn router_name(routers: Seq<RouterEntryView>, a: Seq<u8>) -> Option<Seq<char>>
    decreases routers.len(),
{
    if routers.len() == 0 {
        None
    } else if routers[0].address == a {
        Some(routers[0].name)
    } else {
        router_name(routers.drop_first(), a)
    }
}

/// The direction of the first signature whose selector is `selector`;
/// `Unknown` where none is.
pub open spec fn direction_for(signatures: Seq<MethodSignatureView>, selector: Seq<u8>) -> SwapDirection
    decreases signatures.len(),
{
    if signatures.len() == 0 {
        SwapDirection::Unknown
    } else if signatures[0].selector == selector {
        signatures[0].direction
    } else {
        direction_for(signatures.drop_first(), selector)
    }
}

pub open spec fn uniswap_v2_router() -> Seq<u8> {
    seq![0x7a, 0x25, 0x0d, 0x56, 0x30, 0xb4, 0xcf, 0x53, 0x97, 0x39, 0xdf, 0x2c, 0x5d, 0xac, 0xb4, 0xc6, 0x59, 0xf2, 0x48, 0x8d]
}

pub open spec fn sushiswap_router() -> Seq<u8> {
    seq![0xd9, 0xe1, 0xce, 0x17, 0xf2, 0x64, 0x1f, 0x24, 0xae, 0x83, 0x63, 0x7a, 0xb6, 0x6a, 0x2c, 0xca, 0x9c, 0x37, 0x8b, 0x9f]
}

pub open spec fn uniswap_v3_router() -> Seq<u8> {
    seq![0xe5, 0x92, 0x42, 0x7a, 0x0a, 0xec, 0xe9, 0x2d, 0xe3, 0xed, 0xee, 0x1f, 0x18, 0xe0, 0x15, 0x7c, 0x05, 0x86, 0x15, 0x64]
}

pub open spec fn mev_share_address() -> Seq<u8> {
    seq![0x00, 0x00, 0x00, 0x00, 0x00, 0x00, 0x08, 0x4e, 0x91, 0x74, 0x31, 0x24, 0xa9, 0x82, 0x07, 0x6c, 0x59, 0xf1, 0x00, 0x84]
}

pub open spec fn weth_address() -> Seq<u8> {
    seq![0xc0, 0x2a, 0xaa, 0x39, 0xb2, 0x23, 0xfe, 0x8d, 0x0a, 0x0e, 0x5c, 0x4f, 0x27, 0xea, 0xd9, 0x08, 0x3c, 0x75, 0x6c, 0xc2]
}

pub open spec fn standard_routers() -> Seq<RouterEntryView> {
    seq![
        RouterEntryView { address: uniswap_v2_router(), name: "Uniswap V2"@ },
        RouterEntryView { address: sushiswap_router(), name: "Sushiswap"@ },
        RouterEntryView { address: uniswap_v3_router(), name: "Uniswap V3"@ },
    ]
}

/// Known router contracts: Uniswap V2 at `0x7a250d5630B4cF539739dF2C5dAcb4c659F2488D`,
/// Sushiswap at `0xd9e1cE17f2641f24aE83637ab66a2cca9C378B9F` and Uniswap V3 at
/// `0xE592427A0AEce92De3Edee1F18E0157C05861564`.
pub fn get_dex_routers() -> (r: Vec<RouterEntry>)
    ensures
        r@.map_values(|e: RouterEntry| e@) == standard_routers(),
{
    let mut routers: Vec<RouterEntry> = Vec::new();
    let a = Address { bytes: [0x7a, 0x25, 0x0d, 0x56, 0x30, 0xb4, 0xcf, 0x53, 0x97, 0x39, 0xdf, 0x2c, 0x5d, 0xac, 0xb4, 0xc6, 0x59, 0xf2, 0x48, 0x8d] };
    assert(a@ =~= uniswap_v2_router());
    routers.push(RouterEntry { address: a, name: "Uniswap V2".to_string() });
    let a = Address { bytes: [0xd9, 0xe1, 0xce, 0x17, 0xf2, 0x64, 0x1f, 0x24, 0xae, 0x83, 0x63, 0x7a, 0xb6, 0x6a, 0x2c, 0xca, 0x9c, 0x37, 0x8b, 0x9f] };
    assert(a@ =~= sushiswap_router());
    routers.push(RouterEntry { address: a, name: "Sushiswap".to_string() });
    let a = Address { bytes: [0xe5, 0x92, 0x42, 0x7a, 0x0a, 0xec, 0xe9, 0x2d, 0xe3, 0xed, 0xee, 0x1f, 0x18, 0xe0, 0x15, 0x7c, 0x05, 0x86, 0x15, 0x64] };
    assert(a@ =~= uniswap_v3_router());
    routers.push(RouterEntry { address: a, name: "Uniswap V3".to_string() });
    assert(routers@.map_values(|e: RouterEntry| e@) =~= standard_routers());
    routers
}

pub open spec fn standard_searchers() -> Seq<Seq<u8>> {
    seq![mev_share_address(), weth_address()]
}

/// Known searcher-related addresses: the MEV-Share contract
/// `0x000000000000084e91743124a982076C59f10084` and WETH
/// `0xC02aaA39b223FE8D0A0e5C4F27eAD9083C756Cc2`.
pub fn get_mev_searchers() -> (r: Vec<Address>)
    ensures
        r@.map_values(|a: Address| a@) == standard_searchers(),
{
    let mut searchers: Vec<Address> = Vec::new();
    let a = Address { bytes: [0x00, 0x00, 0x00, 0x00, 0x00, 0x00, 0x08, 0x4e, 0x91, 0x74, 0x31, 0x24, 0xa9, 0x82, 0x07, 0x6c, 0x59, 0xf1, 0x00, 0x84] };
    assert(a@ =~= mev_share_address());
    searchers.push(a);
    let a = Address { bytes: [0xc0, 0x2a, 0xaa, 0x39, 0xb2, 0x23, 0xfe, 0x8d, 0x0a, 0x0e, 0x5c, 0x4f, 0x27, 0xea, 0xd9, 0x08, 0x3c, 0x75, 0x6c, 0xc2] };
    assert(a@ =~= weth_address());
    searchers.push(a);
    assert(searchers@.map_values(|a: Address| a@) =~= standard_searchers());
    searchers
}

pub open spec fn standard_signatures() -> Seq<MethodSignatureView> {
    seq![
        MethodSignatureView { selector: seq![0x7f, 0xf3, 0x6a, 0xb5], direction: SwapDirection::EthToToken },
        MethodSignatureView { selector: seq![0x18, 0xcb, 0xaf, 0xe5], direction: SwapDirection::TokenToEth },
        MethodSignatureView { selector: seq![0xfb, 0x3b, 0xdb, 0x41], direction: SwapDirection::EthToTokenExact },
        MethodSignatureView { selector: seq![0x4a, 0x25, 0xd9, 0x4a], direction: SwapDirection::TokenToEthExact },
    ]
}

/// The router selectors recognised: `swapExactETHForTokens`,
/// `swapExactTokensForETH`, `swapETHForExactTokens` and `swapTokensForExactETH`.
pub fn method_signatures() -> (r: Vec<MethodSignature>)
    ensures
        r@.map_values(|m: MethodSignature| m@) == standard_signatures(),
{
    let mut signatures: Vec<MethodSignature> = Vec::new();
    let m = MethodSignature { selector: [0x7f, 0xf3, 0x6a, 0xb5], direction: SwapDirection::EthToToken };
    assert(m@.selector =~= seq![0x7fu8, 0xf3, 0x6a, 0xb5]);
    signatures.push(m);
    let m = MethodSignature { selector: [0x18, 0xcb, 0xaf, 0xe5], direction: SwapDirection::TokenToEth };
    assert(m@.selector =~= seq![0x18u8, 0xcb, 0xaf, 0xe5]);
    signatures.push(m);
    let m = MethodSignature { selector: [0xfb, 0x3b, 0xdb, 0x41], direction: SwapDirection::EthToTokenExact };
    assert(m@.selector =~= seq![0xfbu8, 0x3b, 0xdb, 0x41]);
    signatures.push(m);
    let m = MethodSignature { selector: [0x4a, 0x25, 0xd9, 0x4a], direction: SwapDirection::TokenToEthExact };
    assert(m@.selector =~= seq![0x4au8, 0x25, 0xd9, 0x4a]);
    signatures.push(m);
    assert(signatures@.map_values(|m: MethodSignature| m@) =~= standard_signatures());
    signatures
}

pub open spec fn standard_reference() -> ReferenceView {
    ReferenceView {
        routers: standard_routers(),
        signatures: standard_signatures(),
        searchers: standard_searchers(),
    }
}

pub open spec fn string_opt_view(s: Option<String>) -> Option<Seq<char>> {
    match s {
        Some(x) => Some(x@),
        None => None,
    }
}

impl ReferenceData {
    /// The tables of known routers, selectors and searchers.
    pub fn standard() -> (r: ReferenceData)
        ensures
            r@ == standard_reference(),
    {
        ReferenceData {
            routers: get_dex_routers(),
            signatures: method_signatures(),
            searchers: get_mev_searchers(),
        }
    }

    /// The exchange name of the first router entry at `address`.
    pub fn exchange_name_for(&self, address: &Address) -> (r: Option<String>)
        ensures
            string_opt_view(r) == router_name(self@.routers, address@),
    {
        let ghost rs = self@.routers;
        assert(rs.subrange(0, rs.len() as int) =~= rs);
        let mut i: usize = 0;
        while i < self.routers.len()
            invariant
                i <= self.routers.len(),
                rs == self@.routers,
                router_name(rs, address@) == router_name(rs.subrange(i as int, rs.len() as int), address@),
            decreases self.routers.len() - i,
        {
            assert(rs.subrange(i as int, rs.len() as int).drop_first()
                =~= rs.subrange(i + 1, rs.len() as int));
            if self.routers[i].address.same_as(address) {
                return Some(self.routers[i].name.clone());
            }
            i = i + 1;
        }
        None
    }

    /// The direction of the first signature with this selector; `Unknown`
    /// where none has it.
    pub fn swap_direction_for(&self, selector: &[u8; 4]) -> (r: SwapDirection)
        ensures
            r == direction_for(self@.signatures, selector@),
    {
        let ghost ss = self@.signatures;
        assert(ss.subrange(0, ss.len() as int) =~= ss);
        let mut i: usize = 0;
        while i < self.signatures.len()
            invariant
                i <= self.signatures.len(),
                ss == self@.signatures,
                direction_for(ss, selector@) == direction_for(ss.subrange(i as int, ss.len() as int), selector@),
            decreases self.signatures.len() - i,
        {
            assert(ss.subrange(i as int, ss.len() as int).drop_first()
                =~= ss.subrange(i + 1, ss.len() as int));
            if same_selector(&self.signatures[i].selector, selector) {
                return self.signatures[i].direction;
            }
            i = i + 1;
        }
        SwapDirection::Unknown
    }
}

fn same_selector(a: &[u8; 4], b: &[u8; 4]) -> (r: bool)
    ensures
        r == (a@ == b@),
{
    let r = a[0] == b[0] && a[1] == b[1] && a[2] == b[2] && a[3] == b[3];
    if r {
        assert(a@ =~= b@);
    }
    r
}

} // verus!
