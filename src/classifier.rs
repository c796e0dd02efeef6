use vstd::prelude::*;
use crate::reference::{
    MethodSignatureView, ReferenceData, ReferenceView, direction_for, router_name, standard_reference,
    standard_routers,
};
use crate::types::{SwapDirection, Transaction, TransactionView, label_of};

verus! {

/// A transaction sent to a known router, with the exchange's name and the
/// direction of the swap.
#[derive(Clone, Debug)]
pub struct ClassifiedSwap {
    pub transaction: Transaction,
    pub exchange: String,
    pub direction: SwapDirection,
}

pub ghost struct ClassifiedSwapView {
    pub tx: TransactionView,
    pub exchange: Seq<char>,
    pub direction: SwapDirection,
}

impl View for ClassifiedSwap {
    type V = ClassifiedSwapView;

    open spec fn view(&self) -> ClassifiedSwapView {
        ClassifiedSwapView { tx: self.transaction@, exchange: self.exchange@, direction: self.direction }
    }
}

/// The record that `tx` yields: one exactly when it has a recipient, that
/// recipient is a known router, and its call data holds at least a 4-byte
/// selector.
pub open spec fn classify(rd: ReferenceView, tx: TransactionView) -> Option<ClassifiedSwapView> {
    match tx.to {
        Some(to) => match router_name(rd.routers, to) {
            Some(name) => if tx.input.len() >= 4 {
                Some(ClassifiedSwapView {
                    tx,
                    exchange: name,
                    direction: direction_for(rd.signatures, tx.input.subrange(0, 4)),
                })
            } else {
                None
            },
            None => None,
        },
        None => None,
    }
}

/// The records of a batch, in the order of the transactions they come from.
pub open spec fn classify_all(rd: ReferenceView, txs: Seq<TransactionView>) -> Seq<ClassifiedSwapView>
    decreases txs.len(),
{
    if txs.len() == 0 {
        Seq::empty()
    } else {
        let prev = classify_all(rd, txs.drop_last());
        match classify(rd, txs.last()) {
            Some(c) => prev.push(c),
            None => prev,
        }
    }
}

pub open spec fn swap_opt_view(c: Option<ClassifiedSwap>) -> Option<ClassifiedSwapView> {
    match c {
        Some(x) => Some(x@),
        None => None,
    }
}

pub open spec fn transactions_view(txs: Seq<Transaction>) -> Seq<TransactionView> {
    txs.map_values(|t: Transaction| t@)
}

pub open spec fn swaps_view(swaps: Seq<ClassifiedSwap>) -> Seq<ClassifiedSwapView> {
    swaps.map_values(|c: ClassifiedSwap| c@)
}

/// Classifies one transaction against the reference tables.
pub fn classify_transaction(refs: &ReferenceData, tx: &Transaction) -> (r: Option<ClassifiedSwap>)
    ensures
        swap_opt_view(r) == classify(refs@, tx@),
{
    match &tx.to {
        Some(to) => {
            if tx.input.len() < 4 {
                return None;
            }
            match refs.exchange_name_for(to) {
                Some(name) => {
                    let selector: [u8; 4] = [tx.input[0], tx.input[1], tx.input[2], tx.input[3]];
                    assert(selector@ =~= tx.input@.subrange(0, 4));
                    let direction = refs.swap_direction_for(&selector);
                    Some(ClassifiedSwap { transaction: tx.duplicate(), exchange: name, direction })
                },
                None => None,
            }
        },
        None => None,
    }
}

/// The swaps of a batch: each transaction sent to a known router with a
/// selector in its call data, labelled, in input order; the others are left
/// out.
pub fn identify_dex_swaps(refs: &ReferenceData, transactions: &[Transaction]) -> (r: Vec<ClassifiedSwap>)
    ensures
        swaps_view(r@) == classify_all(refs@, transactions_view(transactions@)),
{
    let ghost txs = transactions_view(transactions@);
    let mut out: Vec<ClassifiedSwap> = Vec::new();
    let mut i: usize = 0;
    while i < transactions.len()
        invariant
            i <= transactions.len(),
            txs == transactions_view(transactions@),
            swaps_view(out@) == classify_all(refs@, txs.subrange(0, i as int)),
        decreases transactions.len() - i,
    {
        assert(txs.subrange(0, i + 1).drop_last() =~= txs.subrange(0, i as int));
        let c = classify_transaction(refs, &transactions[i]);
        match c {
            Some(s) => {
                out.push(s);
            },
            None => {},
        }
        assert(swaps_view(out@) =~= classify_all(refs@, txs.subrange(0, i + 1)));
        i = i + 1;
    }
    assert(txs.subrange(0, txs.len() as int) =~= txs);
    out
}

/// Classifying a batch made of one part followed by another gives the first
/// part's records followed by the second's: the records keep the relative
/// order of the transactions they come from.
pub proof fn lemma_classify_concat(rd: ReferenceView, a: Seq<TransactionView>, b: Seq<TransactionView>)
    ensures
        classify_all(rd, a + b) == classify_all(rd, a) + classify_all(rd, b),
    decreases b.len(),
{
    if b.len() == 0 {
        assert(a + b =~= a);
        assert(classify_all(rd, a) + classify_all(rd, b) =~= classify_all(rd, a));
    } else {
        lemma_classify_concat(rd, a, b.drop_last());
        assert((a + b).drop_last() =~= a + b.drop_last());
        assert((a + b).last() == b.last());
        match classify(rd, b.last()) {
            Some(c) => {
                assert(classify_all(rd, a) + classify_all(rd, b.drop_last()).push(c)
                    =~= (classify_all(rd, a) + classify_all(rd, b.drop_last())).push(c));
            },
            None => {},
        }
    }
}

/// The records of a one-transaction batch: the transaction's own, if any.
pub proof fn lemma_classify_single(rd: ReferenceView, tx: TransactionView)
    ensures
        classify_all(rd, seq![tx]) == match classify(rd, tx) {
            Some(c) => seq![c],
            None => Seq::<ClassifiedSwapView>::empty(),
        },
{
    assert(seq![tx].drop_last() =~= Seq::<TransactionView>::empty());
    assert(classify_all(rd, Seq::<TransactionView>::empty()) == Seq::<ClassifiedSwapView>::empty());
    assert(seq![tx].last() == tx);
    match classify(rd, tx) {
        Some(c) => {
            assert(Seq::<ClassifiedSwapView>::empty().push(c) =~= seq![c]);
        },
        None => {},
    }
}

/// A transaction that classifies to nothing leaves the records of the batch
/// around it as they would be without it.
pub proof fn lemma_excluded_transaction(
    rd: ReferenceView,
    a: Seq<TransactionView>,
    tx: TransactionView,
    b: Seq<TransactionView>,
)
    requires
        classify(rd, tx) is None,
    ensures
        classify_all(rd, a + seq![tx] + b) == classify_all(rd, a + b),
{
    lemma_classify_concat(rd, a + seq![tx], b);
    lemma_classify_concat(rd, a, seq![tx]);
    lemma_classify_concat(rd, a, b);
    lemma_classify_single(rd, tx);
    assert(classify_all(rd, a) + Seq::<ClassifiedSwapView>::empty() =~= classify_all(rd, a));
}

/// A contract creation (no recipient) is never classified, whatever its call
/// data: the batch's records are those of the batch without it.
pub proof fn lemma_contract_creation_excluded(
    rd: ReferenceView,
    a: Seq<TransactionView>,
    tx: TransactionView,
    b: Seq<TransactionView>,
)
    requires
        tx.to is None,
    ensures
        classify(rd, tx) is None,
        classify_all(rd, a + seq![tx] + b) == classify_all(rd, a + b),
{
    lemma_excluded_transaction(rd, a, tx, b);
}

/// A transaction whose call data is shorter than a 4-byte selector is never
/// classified: the batch's records are those of the batch without it.
pub proof fn lemma_short_call_data_excluded(
    rd: ReferenceView,
    a: Seq<TransactionView>,
    tx: TransactionView,
    b: Seq<TransactionView>,
)
    requires
        tx.input.len() < 4,
    ensures
        classify(rd, tx) is None,
        classify_all(rd, a + seq![tx] + b) == classify_all(rd, a + b),
{
    lemma_excluded_transaction(rd, a, tx, b);
}

/// With the standard tables, a call to a known router whose selector is
/// `0x7ff36ab5` is labelled `ETH->Token`.
pub proof fn lemma_exact_eth_for_tokens_label(tx: TransactionView, router: Seq<u8>)
    requires
        tx.to == Some(router),
        router_name(standard_routers(), router) is Some,
        tx.input.len() >= 4,
        tx.input.subrange(0, 4) == seq![0x7fu8, 0xf3, 0x6a, 0xb5],
    ensures
        classify_all(standard_reference(), seq![tx]) == seq![ClassifiedSwapView {
            tx,
            exchange: router_name(standard_routers(), router)->Some_0,
            direction: SwapDirection::EthToToken,
        }],
        label_of(SwapDirection::EthToToken) == "ETH->Token"@,
{
    lemma_classify_single(standard_reference(), tx);
}

/// The direction of a selector that no signature has is `Unknown`.
pub proof fn lemma_direction_unmatched(signatures: Seq<MethodSignatureView>, selector: Seq<u8>)
    requires
        forall|k: int| 0 <= k < signatures.len() ==> #[trigger] signatures[k].selector != selector,
    ensures
        direction_for(signatures, selector) == SwapDirection::Unknown,
    decreases signatures.len(),
{
    if signatures.len() > 0 {
        assert(signatures[0].selector != selector);
        assert forall|k: int| 0 <= k < signatures.drop_first().len() implies
            #[trigger] signatures.drop_first()[k].selector != selector by {
            assert(signatures.drop_first()[k] == signatures[k + 1]);
        }
        lemma_direction_unmatched(signatures.drop_first(), selector);
    }
}

/// A call to a known router whose selector is in no signature is kept, and
/// labelled `Unknown Swap`.
pub proof fn lemma_unknown_selector_kept(rd: ReferenceView, tx: TransactionView, router: Seq<u8>)
    requires
        tx.to == Some(router),
        router_name(rd.routers, router) is Some,
        tx.input.len() >= 4,
        forall|k: int| 0 <= k < rd.signatures.len() ==> #[trigger] rd.signatures[k].selector != tx.input.subrange(0, 4),
    ensures
        classify_all(rd, seq![tx]) == seq![ClassifiedSwapView {
            tx,
            exchange: router_name(rd.routers, router)->Some_0,
            direction: SwapDirection::Unknown,
        }],
        label_of(SwapDirection::Unknown) == "Unknown Swap"@,
{
    lemma_direction_unmatched(rd.signatures, tx.input.subrange(0, 4));
    lemma_classify_single(rd, tx);
}

} // verus!
