use vstd::prelude::*;

verus! {

/// A 20-byte Ethereum account or contract address.
#[derive(Clone, Copy, Debug)]
pub struct Address {
    pub bytes: [u8; 20],
}

impl View for Address {
    type V = Seq<u8>;

    open spec fn view(&self) -> Seq<u8> {
        self.bytes@
    }
}

impl Address {
    /// Byte-wise equality of two addresses.
    pub fn same_as(&self, other: &Address) -> (r: bool)
        ensures
            r == (self@ == other@),
    {
        let mut i: usize = 0;
        while i < 20
            invariant
                i <= 20,
                self@.len() == 20,
                other@.len() == 20,
                forall|k: int| 0 <= k < i ==> self@[k] == other@[k],
            decreases 20 - i,
        {
            if self.bytes[i] != other.bytes[i] {
                return false;
            }
            i = i + 1;
        }
        assert(self@ =~= other@);
        true
    }
}


/// A transaction as the classifier reads it: its sender, its recipient
/// (absent for a contract creation) and its call data.
#[derive(Clone, Debug)]
pub struct Transaction {
    pub from: Address,
    pub to: Option<Address>,
    pub input: Vec<u8>,
}

pub ghost struct TransactionView {
    pub from: Seq<u8>,
    pub to: Option<Seq<u8>>,
    pub input: Seq<u8>,
}

pub open spec fn address_opt_view(a: Option<Address>) -> Option<Seq<u8>> {
    match a {
        Some(x) => Some(x@),
        None => None,
    }
}

impl View for Transaction {
    type V = TransactionView;

    open spec fn view(&self) -> TransactionView {
        TransactionView { from: self.from@, to: address_opt_view(self.to), input: self.input@ }
    }
}

impl Transaction {
    /// A copy of this transaction with the same sender, recipient and call data.
    pub fn duplicate(&self) -> (r: Transaction)
        ensures
            r@ == self@,
    {
        let input = self.input.clone();
        assert(input@ =~= self.input@);
        Transaction { from: self.from, to: self.to, input }
    }
}

/// The direction of a router swap, as told by the call's method selector.
#[derive(Clone, Copy, Debug, PartialEq, Eq, Structural)]
pub enum SwapDirection {
    EthToToken,
    TokenToEth,
    EthToTokenExact,
    TokenToEthExact,
    Unknown,
}

/// The human-readable label of a swap direction.
pub open spec fn label_of(d: SwapDirection) -> Seq<char> {
    match d {
        SwapDirection::EthToToken => "ETH->Token"@,
        SwapDirection::TokenToEth => "Token->ETH"@,
        SwapDirection::EthToTokenExact => "ETH->Token(Exact)"@,
        SwapDirection::TokenToEthExact => "Token->ETH(Exact)"@,
        SwapDirection::Unknown => "Unknown Swap"@,
    }
}

/// The swap spends ETH: its label starts with `ETH->`.
pub open spec fn spends_eth_spec(d: SwapDirection) -> bool {
    "ETH->"@.is_prefix_of(label_of(d))
}

/// The swap returns ETH: its label starts with `Token->ETH`.
pub open spec fn returns_eth_spec(d: SwapDirection) -> bool {
    "Token->ETH"@.is_prefix_of(label_of(d))
}

impl SwapDirection {
    pub fn label(&self) -> (r: String)
        ensures
            r@ == label_of(*self),
    {
        match self {
            SwapDirection::EthToToken => "ETH->Token".to_string(),
            SwapDirection::TokenToEth => "Token->ETH".to_string(),
            SwapDirection::EthToTokenExact => "ETH->Token(Exact)".to_string(),
            SwapDirection::TokenToEthExact => "Token->ETH(Exact)".to_string(),
            SwapDirection::Unknown => "Unknown Swap".to_string(),
        }
    }

    pub fn spends_eth(&self) -> (r: bool)
        ensures
            r == spends_eth_spec(*self),
    {
        proof {
            reveal_strlit("ETH->");
            reveal_strlit("ETH->Token");
            reveal_strlit("Token->ETH");
            reveal_strlit("ETH->Token(Exact)");
            reveal_strlit("Token->ETH(Exact)");
            reveal_strlit("Unknown Swap");
        }
        match self {
            SwapDirection::EthToToken => {
                assert("ETH->Token"@.subrange(0, 5) =~= "ETH->"@);
                true
            },
            SwapDirection::EthToTokenExact => {
                assert("ETH->Token(Exact)"@.subrange(0, 5) =~= "ETH->"@);
                true
            },
            _ => {
                assert(label_of(*self).subrange(0, 5)[0] != "ETH->"@[0]);
                false
            },
        }
    }

    pub fn returns_eth(&self) -> (r: bool)
        ensures
            r == returns_eth_spec(*self),
    {
        proof {
            reveal_strlit("Token->ETH");
            reveal_strlit("ETH->Token");
            reveal_strlit("ETH->Token(Exact)");
            reveal_strlit("Token->ETH(Exact)");
            reveal_strlit("Unknown Swap");
        }
        match self {
            SwapDirection::TokenToEth => {
                assert("Token->ETH"@.subrange(0, 10) =~= "Token->ETH"@);
                true
            },
            SwapDirection::TokenToEthExact => {
                assert("Token->ETH(Exact)"@.subrange(0, 10) =~= "Token->ETH"@);
                true
            },
            _ => {
                assert(label_of(*self).subrange(0, 10)[0] != "Token->ETH"@[0]);
                false
            },
        }
    }
}

} // verus!
