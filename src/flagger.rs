use vstd::prelude::*;
use crate::classifier::{ClassifiedSwap, ClassifiedSwapView, identify_dex_swaps, classify_all, swaps_view, transactions_view};
use crate::reference::ReferenceData;
use crate::types::{Address, SwapDirection, Transaction, label_of, returns_eth_spec, spends_eth_spec};

verus! {

/// An arbitrage flag: a token identifier and an estimated profit, both as
/// text. Neither is computed from real amounts.
#[derive(Clone, Debug)]
pub struct ArbitrageFlag {
    pub token: String,
    pub profit: String,
}

pub ghost struct ArbitrageFlagView {
    pub token: Seq<char>,
    pub profit: Seq<char>,
}

impl View for ArbitrageFlag {
    type V = ArbitrageFlagView;

    open spec fn view(&self) -> ArbitrageFlagView {
        ArbitrageFlagView { token: self.token@, profit: self.profit@ }
    }
}

/// The flag emitted for each sender found making a round trip.
pub open spec fn round_trip_flag() -> ArbitrageFlagView {
    ArbitrageFlagView { token: "Unknown"@, profit: "0.025"@ }
}

/// The flag emitted, alone, when no sender makes a round trip.
pub open spec fn placeholder_flag() -> ArbitrageFlagView {
    ArbitrageFlagView { token: "USDC"@, profit: "0.045"@ }
}

pub open spec fn addresses_view(v: Seq<Address>) -> Seq<Seq<u8>> {
    v.map_values(|a: Address| a@)
}

/// The distinct senders of a batch of swaps, in order of first appearance.
pub open spec fn senders(swaps: Seq<ClassifiedSwapView>) -> Seq<Seq<u8>>
    decreases swaps.len(),
{
    if swaps.len() == 0 {
        Seq::empty()
    } else {
        let prev = senders(swaps.drop_last());
        let a = swaps.last().tx.from;
        if prev.contains(a) {
            prev
        } else {
            prev.push(a)
        }
    }
}

/// Sender `a` has a swap that spends ETH and a swap that brings ETH back.
pub open spec fn round_trip(swaps: Seq<ClassifiedSwapView>, a: Seq<u8>) -> bool {
    &&& exists|i: int| 0 <= i < swaps.len() && swaps[i].tx.from == a && spends_eth_spec(swaps[i].direction)
    &&& exists|j: int| 0 <= j < swaps.len() && swaps[j].tx.from == a && returns_eth_spec(swaps[j].direction)
}

/// The senders flagged as round-trip arbitrageurs, in order of first
/// appearance.
pub open spec fn flagged_senders(swaps: Seq<ClassifiedSwapView>) -> Seq<Seq<u8>> {
    senders(swaps).filter(|a: Seq<u8>| round_trip(swaps, a))
}

fn contains_address(v: &Vec<Address>, a: &Address) -> (r: bool)
    ensures
        r == addresses_view(v@).contains(a@),
{
    let ghost vs = addresses_view(v@);
    let mut i: usize = 0;
    while i < v.len()
        invariant
            i <= v.len(),
            vs == addresses_view(v@),
            forall|k: int| 0 <= k < i ==> vs[k] != a@,
        decreases v.len() - i,
    {
        if v[i].same_as(a) {
            assert(vs[i as int] == a@);
            return true;
        }
        i = i + 1;
    }
    false
}

/// The distinct senders of `swaps`, in order of first appearance.
pub fn distinct_senders(swaps: &[ClassifiedSwap]) -> (r: Vec<Address>)
    ensures
        addresses_view(r@) == senders(swaps_view(swaps@)),
{
    let ghost sv = swaps_view(swaps@);
    let mut out: Vec<Address> = Vec::new();
    let mut i: usize = 0;
    while i < swaps.len()
        invariant
            i <= swaps.len(),
            sv == swaps_view(swaps@),
            addresses_view(out@) == senders(sv.subrange(0, i as int)),
        decreases swaps.len() - i,
    {
        assert(sv.subrange(0, i + 1).drop_last() =~= sv.subrange(0, i as int));
        let a = swaps[i].transaction.from;
        if !contains_address(&out, &a) {
            out.push(a);
        }
        assert(addresses_view(out@) =~= senders(sv.subrange(0, i + 1)));
        i = i + 1;
    }
    assert(sv.subrange(0, sv.len() as int) =~= sv);
    out
}

/// Whether `sender` has, among `swaps`, one that spends ETH and one that
/// brings ETH back.
pub fn has_round_trip(swaps: &[ClassifiedSwap], sender: &Address) -> (r: bool)
    ensures
        r == round_trip(swaps_view(swaps@), sender@),
{
    let ghost sv = swaps_view(swaps@);
    let mut pays_out = false;
    let mut gives_back = false;
    let mut i: usize = 0;
    while i < swaps.len()
        invariant
            i <= swaps.len(),
            sv == swaps_view(swaps@),
            pays_out == exists|k: int| 0 <= k < i && sv[k].tx.from == sender@ && spends_eth_spec(sv[k].direction),
            gives_back == exists|k: int| 0 <= k < i && sv[k].tx.from == sender@ && returns_eth_spec(sv[k].direction),
        decreases swaps.len() - i,
    {
        let ghost cur = sv[i as int];
        assert(cur == swaps@[i as int]@);
        if swaps[i].transaction.from.same_as(sender) {
            if swaps[i].direction.spends_eth() {
                pays_out = true;
            }
            if swaps[i].direction.returns_eth() {
                gives_back = true;
            }
        }
        assert(pays_out == exists|k: int| 0 <= k < i + 1 && sv[k].tx.from == sender@ && spends_eth_spec(sv[k].direction)) by {
            if cur.tx.from == sender@ && spends_eth_spec(cur.direction) {
                assert(sv[i as int].tx.from == sender@);
            }
        }
        assert(gives_back == exists|k: int| 0 <= k < i + 1 && sv[k].tx.from == sender@ && returns_eth_spec(sv[k].direction)) by {
            if cur.tx.from == sender@ && returns_eth_spec(cur.direction) {
                assert(sv[i as int].tx.from == sender@);
            }
        }
        i = i + 1;
    }
    pays_out && gives_back
}

/// The senders of `swaps` that make a round trip: one entry per sender, in
/// order of first appearance.
pub fn flag_round_trips(swaps: &[ClassifiedSwap]) -> (r: Vec<Address>)
    ensures
        addresses_view(r@) == flagged_senders(swaps_view(swaps@)),
{
    let ghost sv = swaps_view(swaps@);
    let candidates = distinct_senders(swaps);
    let ghost cs = addresses_view(candidates@);
    let ghost pred = |a: Seq<u8>| round_trip(sv, a);
    let mut out: Vec<Address> = Vec::new();
    assert(cs.subrange(0, 0).filter(pred) =~= Seq::empty()) by {
        reveal(Seq::filter);
    }
    let mut k: usize = 0;
    while k < candidates.len()
        invariant
            k <= candidates.len(),
            sv == swaps_view(swaps@),
            cs == addresses_view(candidates@),
            cs == senders(sv),
            pred == (|a: Seq<u8>| round_trip(sv, a)),
            addresses_view(out@) == cs.subrange(0, k as int).filter(pred),
        decreases candidates.len() - k,
    {
        assert(cs.subrange(0, k + 1).last() == candidates@[k as int]@);
        let ghost prefix = cs.subrange(0, k + 1);
        assert(prefix =~= cs.subrange(0, k as int).push(prefix.last()));
        proof {
            cs.subrange(0, k as int).lemma_filter_push(prefix.last(), pred);
        }
        let ghost before = addresses_view(out@);
        if has_round_trip(swaps, &candidates[k]) {
            out.push(candidates[k]);
            assert(pred(prefix.last()));
            assert(addresses_view(out@) =~= before.push(prefix.last()));
        } else {
            assert(!pred(prefix.last()));
            assert(addresses_view(out@) =~= before);
        }
        assert(addresses_view(out@) == prefix.filter(pred));
        k = k + 1;
    }
    assert(cs.subrange(0, cs.len() as int) =~= cs);
    out
}

/// The flags of a batch of swaps: one `("Unknown", "0.025")` for each
/// sender making a round trip, or, where there is none, a single
/// `("USDC", "0.045")` that stands for nothing found.
pub fn arbitrage_flags(swaps: &[ClassifiedSwap]) -> (r: Vec<ArbitrageFlag>)
    ensures
        flagged_senders(swaps_view(swaps@)).len() == 0 ==> r@.len() == 1 && r@[0]@ == placeholder_flag(),
        flagged_senders(swaps_view(swaps@)).len() > 0 ==> {
            &&& r@.len() == flagged_senders(swaps_view(swaps@)).len()
            &&& forall|i: int| 0 <= i < r@.len() ==> #[trigger] r@[i]@ == round_trip_flag()
        },
{
    let flagged = flag_round_trips(swaps);
    let mut out: Vec<ArbitrageFlag> = Vec::new();
    let mut k: usize = 0;
    while k < flagged.len()
        invariant
            k <= flagged.len(),
            out@.len() == k,
            forall|i: int| 0 <= i < k ==> #[trigger] out@[i]@ == round_trip_flag(),
        decreases flagged.len() - k,
    {
        out.push(ArbitrageFlag { token: "Unknown".to_string(), profit: "0.025".to_string() });
        k = k + 1;
    }
    if out.len() == 0 {
        out.push(ArbitrageFlag { token: "USDC".to_string(), profit: "0.045".to_string() });
    }
    out
}

/// Classifies a batch of transactions and flags the round trips in it, as
/// `arbitrage_flags` does.
pub fn identify_arbitrage(refs: &ReferenceData, transactions: &[Transaction]) -> (r: Vec<ArbitrageFlag>)
    ensures
        ({
            let flagged = flagged_senders(classify_all(refs@, transactions_view(transactions@)));
            &&& flagged.len() == 0 ==> r@.len() == 1 && r@[0]@ == placeholder_flag()
            &&& flagged.len() > 0 ==> {
                &&& r@.len() == flagged.len()
                &&& forall|i: int| 0 <= i < r@.len() ==> #[trigger] r@[i]@ == round_trip_flag()
            }
        }),
{
    let swaps = identify_dex_swaps(refs, transactions);
    arbitrage_flags(swaps.as_slice())
}

/// A sender appears among the distinct senders exactly when one of the swaps
/// is theirs.
pub proof fn lemma_senders_contains(swaps: Seq<ClassifiedSwapView>, a: Seq<u8>)
    ensures
        senders(swaps).contains(a) <==> exists|i: int| 0 <= i < swaps.len() && swaps[i].tx.from == a,
    decreases swaps.len(),
{
    if swaps.len() > 0 {
        let rest = swaps.drop_last();
        let r = senders(rest);
        let l = swaps.last().tx.from;
        lemma_senders_contains(rest, a);
        if r.contains(a) {
            let k = choose|k: int| 0 <= k < r.len() && r[k] == a;
            assert(senders(swaps)[k] == a);
            let i = choose|i: int| 0 <= i < rest.len() && rest[i].tx.from == a;
            assert(swaps[i].tx.from == a);
        }
        if a == l {
            assert(swaps[swaps.len() - 1].tx.from == a);
            if !r.contains(l) {
                assert(senders(swaps)[r.len() as int] == a);
            }
        }
        if exists|i: int| 0 <= i < swaps.len() && swaps[i].tx.from == a {
            let i = choose|i: int| 0 <= i < swaps.len() && swaps[i].tx.from == a;
            if i < swaps.len() - 1 {
                assert(rest[i].tx.from == a);
            }
        }
        if senders(swaps).contains(a) && !r.contains(a) {
            let k = choose|k: int| 0 <= k < senders(swaps).len() && senders(swaps)[k] == a;
            if k < r.len() {
                assert(r[k] == a);
            }
        }
    }
}

/// The distinct senders hold each sender once.
pub proof fn lemma_senders_no_duplicates(swaps: Seq<ClassifiedSwapView>)
    ensures
        senders(swaps).no_duplicates(),
    decreases swaps.len(),
{
    if swaps.len() > 0 {
        lemma_senders_no_duplicates(swaps.drop_last());
    }
}

/// Filtering a sequence without duplicates leaves one without duplicates.
pub proof fn lemma_filter_no_duplicates<A>(xs: Seq<A>, p: spec_fn(A) -> bool)
    requires
        xs.no_duplicates(),
    ensures
        xs.filter(p).no_duplicates(),
    decreases xs.len(),
{
    if xs.len() == 0 {
        assert(xs.filter(p) =~= xs) by {
            reveal(Seq::filter);
        }
    } else {
        let rest = xs.drop_last();
        let x = xs.last();
        assert(rest.no_duplicates());
        lemma_filter_no_duplicates(rest, p);
        assert(xs =~= rest.push(x));
        rest.lemma_filter_push(x, p);
        if p(x) {
            if rest.filter(p).contains(x) {
                rest.lemma_filter_contains_rev(p, x);
                let k = choose|k: int| 0 <= k < rest.len() && rest[k] == x;
                assert(xs[k] == xs[xs.len() - 1]);
            }
        }
    }
}

/// The swap `ETH->Token` spends ETH and does not bring it back; `Token->ETH`
/// brings ETH back.
pub proof fn lemma_direction_facts()
    ensures
        spends_eth_spec(SwapDirection::EthToToken),
        !returns_eth_spec(SwapDirection::EthToToken),
        returns_eth_spec(SwapDirection::TokenToEth),
{
    reveal_strlit("ETH->");
    reveal_strlit("ETH->Token");
    reveal_strlit("Token->ETH");
    assert("ETH->Token"@.subrange(0, 5) =~= "ETH->"@);
    assert("ETH->Token"@.subrange(0, 10)[0] != "Token->ETH"@[0]);
    assert("Token->ETH"@.subrange(0, 10) =~= "Token->ETH"@);
}

/// A sender with an `ETH->Token` swap and a `Token->ETH` swap is flagged,
/// and exactly once.
pub proof fn lemma_round_trip_flagged_once(swaps: Seq<ClassifiedSwapView>, i: int, j: int)
    requires
        0 <= i < swaps.len(),
        0 <= j < swaps.len(),
        swaps[i].tx.from == swaps[j].tx.from,
        swaps[i].direction == SwapDirection::EthToToken,
        swaps[j].direction == SwapDirection::TokenToEth,
    ensures
        flagged_senders(swaps).contains(swaps[i].tx.from),
        forall|k: int, m: int|
            0 <= k < flagged_senders(swaps).len() && 0 <= m < flagged_senders(swaps).len()
                && flagged_senders(swaps)[k] == swaps[i].tx.from && flagged_senders(swaps)[m] == swaps[i].tx.from
                ==> k == m,
{
    let a = swaps[i].tx.from;
    let pred = |x: Seq<u8>| round_trip(swaps, x);
    lemma_direction_facts();
    assert(round_trip(swaps, a));
    lemma_senders_contains(swaps, a);
    let ss = senders(swaps);
    let k = choose|k: int| 0 <= k < ss.len() && ss[k] == a;
    ss.lemma_filter_contains(pred, k);
    lemma_senders_no_duplicates(swaps);
    lemma_filter_no_duplicates(ss, pred);
}

/// A sender whose swaps are all `ETH->Token` is not flagged.
pub proof fn lemma_one_way_not_flagged(swaps: Seq<ClassifiedSwapView>, a: Seq<u8>)
    requires
        forall|i: int| 0 <= i < swaps.len() && #[trigger] swaps[i].tx.from == a
            ==> swaps[i].direction == SwapDirection::EthToToken,
    ensures
        !flagged_senders(swaps).contains(a),
{
    let pred = |x: Seq<u8>| round_trip(swaps, x);
    lemma_direction_facts();
    let f = senders(swaps).filter(pred);
    if f.contains(a) {
        let k = choose|k: int| 0 <= k < f.len() && f[k] == a;
        senders(swaps).lemma_filter_pred(pred, k);
        assert(round_trip(swaps, a));
        let j = choose|j: int| 0 <= j < swaps.len() && swaps[j].tx.from == a && returns_eth_spec(swaps[j].direction);
        assert(swaps[j].direction == SwapDirection::EthToToken);
    }
}

/// No swap direction both spends ETH and brings it back, so a sender making a
/// round trip has at least two different swaps.
pub proof fn lemma_round_trip_needs_two_swaps(swaps: Seq<ClassifiedSwapView>, a: Seq<u8>)
    requires
        round_trip(swaps, a),
    ensures
        exists|i: int, j: int|
            0 <= i < swaps.len() && 0 <= j < swaps.len() && i != j && swaps[i].tx.from == a
                && swaps[j].tx.from == a,
{
    reveal_strlit("ETH->");
    reveal_strlit("Token->ETH");
    reveal_strlit("ETH->Token");
    reveal_strlit("ETH->Token(Exact)");
    reveal_strlit("Token->ETH(Exact)");
    reveal_strlit("Unknown Swap");
    let i = choose|i: int| 0 <= i < swaps.len() && swaps[i].tx.from == a && spends_eth_spec(swaps[i].direction);
    let j = choose|j: int| 0 <= j < swaps.len() && swaps[j].tx.from == a && returns_eth_spec(swaps[j].direction);
    let d = swaps[i].direction;
    assert(label_of(d).subrange(0, 10)[0] != "Token->ETH"@[0]);
    assert(i != j);
}

} // verus!
