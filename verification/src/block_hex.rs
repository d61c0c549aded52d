//! The binary wire format: a block is an 80-byte header followed by a
//! varuint-counted list of transactions; a transaction optionally carries
//! segregated-witness data, announced by an empty first input list (the
//! marker) followed by a flags byte.

use vstd::prelude::*;

verus! {

use crate::cursor::{
    Reader,
    append_parsed,
    lemma_append_parsed_step,
    spec_read_blob_list,
    spec_read_bytes,
    spec_read_u8,
    spec_read_u32_le,
    spec_read_u64_le,
    spec_read_varuint,
    spec_read_varuint_bytes,
};
use crate::hash256::{H256, H256_LEN};

/// A decoded block: the header, then the transactions in wire order.
#[derive(Debug)]
pub struct Block {
    pub header: BlockHeader,
    pub transactions: Vec<Transaction>,
}

/// The fixed 80-byte block header. No field is validated beyond successful
/// byte consumption.
#[derive(Debug)]
pub struct BlockHeader {
    pub version: u32,
    pub prev_hash: H256,
    pub merkle_root: H256,
    pub timestamp: u32,
    pub bits: u32,
    pub nonce: u32,
}

/// A decoded transaction. When the witness flag bit was set, every input's
/// `witness` is populated (possibly with an empty stack); otherwise every
/// input's `witness` is `None`.
#[derive(Debug)]
pub struct Transaction {
    pub version: u32,
    pub inputs: Vec<TransactionInput>,
    pub outputs: Vec<TransactionOutput>,
    pub locktime: u32,
}

/// One transaction input.
#[derive(Debug)]
pub struct TransactionInput {
    pub hash: H256,
    pub index: u32,
    pub script: Vec<u8>,
    pub sequence: u32,
    pub witness: Option<Vec<Vec<u8>>>,
}

/// One transaction output.
#[derive(Debug)]
pub struct TransactionOutput {
    pub value: u64,
    pub script: Vec<u8>,
}

/// Mathematical image of a block header.
pub ghost struct HeaderView {
    pub version: u32,
    pub prev_hash: Seq<u8>,
    pub merkle_root: Seq<u8>,
    pub timestamp: u32,
    pub bits: u32,
    pub nonce: u32,
}

/// Mathematical image of a transaction input.
pub ghost struct InputView {
    pub hash: Seq<u8>,
    pub index: u32,
    pub script: Seq<u8>,
    pub sequence: u32,
    pub witness: Option<Seq<Seq<u8>>>,
}

/// Mathematical image of a transaction output.
pub ghost struct OutputView {
    pub value: u64,
    pub script: Seq<u8>,
}

/// Mathematical image of a transaction.
pub ghost struct TxView {
    pub version: u32,
    pub inputs: Seq<InputView>,
    pub outputs: Seq<OutputView>,
    pub locktime: u32,
}

/// Mathematical image of a block.
pub ghost struct BlockView {
    pub header: HeaderView,
    pub transactions: Seq<TxView>,
}

impl DeepView for BlockHeader {
    type V = HeaderView;

    open spec fn deep_view(&self) -> HeaderView {
        HeaderView {
            version: self.version,
            prev_hash: self.prev_hash@,
            merkle_root: self.merkle_root@,
            timestamp: self.timestamp,
            bits: self.bits,
            nonce: self.nonce,
        }
    }
}

impl View for BlockHeader {
    type V = HeaderView;

    open spec fn view(&self) -> HeaderView {
        self.deep_view()
    }
}

impl DeepView for TransactionInput {
    type V = InputView;

    open spec fn deep_view(&self) -> InputView {
        InputView {
            hash: self.hash@,
            index: self.index,
            script: self.script@,
            sequence: self.sequence,
            witness: self.witness.deep_view(),
        }
    }
}

impl View for TransactionInput {
    type V = InputView;

    open spec fn view(&self) -> InputView {
        self.deep_view()
    }
}

impl DeepView for TransactionOutput {
    type V = OutputView;

    open spec fn deep_view(&self) -> OutputView {
        OutputView { value: self.value, script: self.script@ }
    }
}

impl View for TransactionOutput {
    type V = OutputView;

    open spec fn view(&self) -> OutputView {
        self.deep_view()
    }
}

impl DeepView for Transaction {
    type V = TxView;

    open spec fn deep_view(&self) -> TxView {
        TxView {
            version: self.version,
            inputs: self.inputs.deep_view(),
            outputs: self.outputs.deep_view(),
            locktime: self.locktime,
        }
    }
}

impl View for Transaction {
    type V = TxView;

    open spec fn view(&self) -> TxView {
        self.deep_view()
    }
}

impl DeepView for Block {
    type V = BlockView;

    open spec fn deep_view(&self) -> BlockView {
        BlockView { header: self.header.deep_view(), transactions: self.transactions.deep_view() }
    }
}

impl View for Block {
    type V = BlockView;

    open spec fn view(&self) -> BlockView {
        self.deep_view()
    }
}

/// Read one input: previous-transaction hash, output index, script,
/// sequence. The witness is attached later, if at all.
pub open spec fn spec_read_input(s: Seq<u8>, i: int) -> Option<(InputView, int)> {
    match spec_read_bytes(s, i, H256_LEN as int) {
        None => None,
        Some((hash, i1)) => match spec_read_u32_le(s, i1) {
            None => None,
            Some((index, i2)) => match spec_read_varuint_bytes(s, i2) {
                None => None,
                Some((script, i3)) => match spec_read_u32_le(s, i3) {
                    None => None,
                    Some((sequence, i4)) => Some(
                        (InputView { hash, index, script, sequence, witness: None }, i4),
                    ),
                },
            },
        },
    }
}

/// Read one output: value, then script.
pub open spec fn spec_read_output(s: Seq<u8>, i: int) -> Option<(OutputView, int)> {
    match spec_read_u64_le(s, i) {
        None => None,
        Some((value, i1)) => match spec_read_varuint_bytes(s, i1) {
            None => None,
            Some((script, i2)) => Some((OutputView { value, script }, i2)),
        },
    }
}

/// Read exactly `n` inputs in sequence.
pub open spec fn spec_read_inputs_n(s: Seq<u8>, i: int, n: nat) -> Option<(Seq<InputView>, int)>
    decreases n,
{
    if n == 0 {
        Some((Seq::empty(), i))
    } else {
        match spec_read_input(s, i) {
            None => None,
            Some((x, j)) => match spec_read_inputs_n(s, j, (n - 1) as nat) {
                None => None,
                Some((xs, k)) => Some((seq![x] + xs, k)),
            },
        }
    }
}

/// Read exactly `n` outputs in sequence.
pub open spec fn spec_read_outputs_n(s: Seq<u8>, i: int, n: nat) -> Option<(Seq<OutputView>, int)>
    decreases n,
{
    if n == 0 {
        Some((Seq::empty(), i))
    } else {
        match spec_read_output(s, i) {
            None => None,
            Some((x, j)) => match spec_read_outputs_n(s, j, (n - 1) as nat) {
                None => None,
                Some((xs, k)) => Some((seq![x] + xs, k)),
            },
        }
    }
}

/// Read a varuint count, then that many inputs.
pub open spec fn spec_read_input_list(s: Seq<u8>, i: int) -> Option<(Seq<InputView>, int)> {
    match spec_read_varuint(s, i) {
        None => None,
        Some((n, j)) => spec_read_inputs_n(s, j, n as nat),
    }
}

/// Read a varuint count, then that many outputs.
pub open spec fn spec_read_output_list(s: Seq<u8>, i: int) -> Option<(Seq<OutputView>, int)> {
    match spec_read_varuint(s, i) {
        None => None,
        Some((n, j)) => spec_read_outputs_n(s, j, n as nat),
    }
}

/// Read exactly `n` witness stacks (one per input), each a varuint-counted
/// list of varuint-prefixed byte blobs.
pub open spec fn spec_read_stacks_n(s: Seq<u8>, i: int, n: nat) -> Option<(Seq<Seq<Seq<u8>>>, int)>
    decreases n,
{
    if n == 0 {
        Some((Seq::empty(), i))
    } else {
        match spec_read_blob_list(s, i) {
            None => None,
            Some((x, j)) => match spec_read_stacks_n(s, j, (n - 1) as nat) {
                None => None,
                Some((xs, k)) => Some((seq![x] + xs, k)),
            },
        }
    }
}

/// Attach one witness stack to each input, in input order.
pub open spec fn attach_witnesses(inputs: Seq<InputView>, stacks: Seq<Seq<Seq<u8>>>) -> Seq<
    InputView,
> {
    Seq::new(
        inputs.len(),
        |k: int|
            InputView {
                hash: inputs[k].hash,
                index: inputs[k].index,
                script: inputs[k].script,
                sequence: inputs[k].sequence,
                witness: Some(stacks[k]),
            },
    )
}

/// The tail of a transaction, after its lists are read: if the flag bit is
/// set, one witness stack per input, then the locktime.
pub open spec fn spec_read_tx_tail(
    s: Seq<u8>,
    i: int,
    version: u32,
    flags: u8,
    inputs: Seq<InputView>,
    outputs: Seq<OutputView>,
) -> Option<(TxView, int)> {
    if flags & 1 == 1 {
        match spec_read_stacks_n(s, i, inputs.len()) {
            None => None,
            Some((stacks, j)) => match spec_read_u32_le(s, j) {
                None => None,
                Some((locktime, k)) => Some(
                    (
                        TxView {
                            version,
                            inputs: attach_witnesses(inputs, stacks),
                            outputs,
                            locktime,
                        },
                        k,
                    ),
                ),
            },
        }
    } else {
        match spec_read_u32_le(s, i) {
            None => None,
            Some((locktime, k)) => Some((TxView { version, inputs, outputs, locktime }, k)),
        }
    }
}

/// Read one transaction. An empty first input list is not data but the
/// reserved marker of the extended (witness-capable) encoding: a flags byte
/// follows, then the real input list. A genuinely empty-input transaction is
/// therefore indistinguishable from the marker; the format accepts that
/// ambiguity by design.
pub open spec fn spec_read_tx(s: Seq<u8>, i: int) -> Option<(TxView, int)> {
    match spec_read_u32_le(s, i) {
        None => None,
        Some((version, i1)) => match spec_read_input_list(s, i1) {
            None => None,
            Some((first_inputs, i2)) => if first_inputs.len() == 0 {
                match spec_read_u8(s, i2) {
                    None => None,
                    Some((flags, i3)) => match spec_read_input_list(s, i3) {
                        None => None,
                        Some((inputs, i4)) => match spec_read_output_list(s, i4) {
                            None => None,
                            Some((outputs, i5)) => spec_read_tx_tail(
                                s,
                                i5,
                                version,
                                flags,
                                inputs,
                                outputs,
                            ),
                        },
                    },
                }
            } else {
                match spec_read_output_list(s, i2) {
                    None => None,
                    Some((outputs, i3)) => spec_read_tx_tail(
                        s,
                        i3,
                        version,
                        0,
                        first_inputs,
                        outputs,
                    ),
                }
            },
        },
    }
}

/// Read exactly `n` transactions in sequence.
pub open spec fn spec_read_txs_n(s: Seq<u8>, i: int, n: nat) -> Option<(Seq<TxView>, int)>
    decreases n,
{
    if n == 0 {
        Some((Seq::empty(), i))
    } else {
        match spec_read_tx(s, i) {
            None => None,
            Some((x, j)) => match spec_read_txs_n(s, j, (n - 1) as nat) {
                None => None,
                Some((xs, k)) => Some((seq![x] + xs, k)),
            },
        }
    }
}

/// Read a varuint count, then that many transactions.
pub open spec fn spec_read_tx_list(s: Seq<u8>, i: int) -> Option<(Seq<TxView>, int)> {
    match spec_read_varuint(s, i) {
        None => None,
        Some((n, j)) => spec_read_txs_n(s, j, n as nat),
    }
}

/// Read the fixed 80-byte header.
pub open spec fn spec_read_header(s: Seq<u8>, i: int) -> Option<(HeaderView, int)> {
    match spec_read_u32_le(s, i) {
        None => None,
        Some((version, i1)) => match spec_read_bytes(s, i1, H256_LEN as int) {
            None => None,
            Some((prev_hash, i2)) => match spec_read_bytes(s, i2, H256_LEN as int) {
                None => None,
                Some((merkle_root, i3)) => match spec_read_u32_le(s, i3) {
                    None => None,
                    Some((timestamp, i4)) => match spec_read_u32_le(s, i4) {
                        None => None,
                        Some((bits, i5)) => match spec_read_u32_le(s, i5) {
                            None => None,
                            Some((nonce, i6)) => Some(
                                (
                                    HeaderView {
                                        version,
                                        prev_hash,
                                        merkle_root,
                                        timestamp,
                                        bits,
                                        nonce,
                                    },
                                    i6,
                                ),
                            ),
                        },
                    },
                },
            },
        },
    }
}

/// Read a block: header, then a varuint-counted transaction list.
pub open spec fn spec_read_block(s: Seq<u8>, i: int) -> Option<(BlockView, int)> {
    match spec_read_header(s, i) {
        None => None,
        Some((header, i1)) => match spec_read_tx_list(s, i1) {
            None => None,
            Some((transactions, i2)) => Some((BlockView { header, transactions }, i2)),
        },
    }
}


/// Read one witness stack per input, in input order, and attach each to its
/// input.
#[verifier::loop_isolation(false)]
fn attach_witness_stacks(r: &mut Reader<'_>, inputs: Vec<TransactionInput>) -> (res: Option<
    Vec<TransactionInput>,
>)
    requires
        old(r).wf(),
    ensures
        final(r).wf(),
        final(r).bytes() == old(r).bytes(),
        match spec_read_stacks_n(old(r).bytes(), old(r).position(), inputs.deep_view().len()) {
            Some((stacks, j)) => res matches Some(v) && v.deep_view() == attach_witnesses(
                inputs.deep_view(),
                stacks,
            ) && final(r).position() == j,
            None => res is None,
        },
{
    let ghost s = old(r).bytes();
    let ghost jt = old(r).position();
    let ghost insv = inputs.deep_view();
    let mut inputs = inputs;
    let n_in = inputs.len();
    let mut attached: Vec<TransactionInput> = Vec::new();
    let ghost mut gstacks: Seq<Seq<Seq<u8>>> = Seq::empty();
    let mut w: usize = 0;
    proof {
        assert(inputs.deep_view() =~= insv.skip(0));
        assert(attached.deep_view() =~= attach_witnesses(insv.take(0), gstacks));
        assert(gstacks + Seq::<Seq<Seq<u8>>>::empty() =~= gstacks);
    }
    while w < n_in
        invariant
            r.wf(),
            r.bytes() == s,
            w <= n_in,
            n_in == insv.len(),
            inputs.deep_view() == insv.skip(w as int),
            attached.deep_view() == attach_witnesses(insv.take(w as int), gstacks),
            gstacks.len() == w,
            spec_read_stacks_n(s, jt, n_in as nat) == append_parsed(
                gstacks,
                spec_read_stacks_n(s, r.position(), (n_in - w) as nat),
            ),
        decreases n_in - w,
    {
        let ghost pre_shallow = inputs@;
        let ghost pre_deep = inputs.deep_view();
        let ghost attached0 = attached.deep_view();
        let mut inp = inputs.remove(0);
        let ghost gstacks0 = gstacks;
        let stack = match r.get_varuint_slice_vec() {
            None => { return None },
            Some(v) => v,
        };
        proof {
            lemma_append_parsed_step(
                gstacks0,
                stack.deep_view(),
                spec_read_stacks_n(s, r.position(), (n_in - w - 1) as nat),
            );
        }
        inp.witness = Some(stack);
        attached.push(inp);
        proof {
            gstacks = gstacks0.push(stack.deep_view());
            assert forall|k: int| 0 <= k < inputs@.len() implies #[trigger] inputs.deep_view()[k]
                == insv.skip(w + 1)[k] by {
                assert(inputs@[k] == pre_shallow[k + 1]);
                assert(pre_deep[k + 1] == pre_shallow[k + 1].deep_view());
                assert(pre_deep[k + 1] == insv.skip(w as int)[k + 1]);
            }
            assert(inputs.deep_view() =~= insv.skip(w + 1));
            assert(inp.deep_view().hash == pre_deep[0].hash);
            assert(pre_deep[0] == insv.skip(w as int)[0]);
            assert forall|k: int| 0 <= k < attached@.len() implies #[trigger] attached.deep_view()[k]
                == attach_witnesses(insv.take(w + 1), gstacks)[k] by {
                if k < w {
                    assert(attached.deep_view()[k] == attached0[k]);
                    assert(attached0[k] == attach_witnesses(insv.take(w as int), gstacks0)[k]);
                    assert(insv.take(w + 1)[k] == insv.take(w as int)[k]);
                } else {
                    assert(attached.deep_view()[k] == inp.deep_view());
                    assert(insv.take(w + 1)[k] == insv[w as int]);
                }
            }
            assert(attached.deep_view() =~= attach_witnesses(insv.take(w + 1), gstacks));
        }
        w = w + 1;
    }
    proof {
        assert(insv.take(n_in as int) =~= insv);
        assert(gstacks + Seq::<Seq<Seq<u8>>>::empty() =~= gstacks);
    }
    Some(attached)
}

impl TransactionInput {
    /// Decode one input off the cursor.
    pub fn from_bytes(r: &mut Reader<'_>) -> (res: Option<TransactionInput>)
        requires
            old(r).wf(),
        ensures
            final(r).wf(),
            final(r).bytes() == old(r).bytes(),
            match spec_read_input(old(r).bytes(), old(r).position()) {
                Some((v, j)) => res matches Some(x) && x.deep_view() == v && final(r).position()
                    == j,
                None => res is None,
            },
    {
        let hash = match H256::from_bytes(r) {
            None => { return None },
            Some(v) => v,
        };
        let index = match r.get_u32_le() {
            None => { return None },
            Some(v) => v,
        };
        let script = match r.get_varuint_slice() {
            None => { return None },
            Some(v) => v,
        };
        let sequence = match r.get_u32_le() {
            None => { return None },
            Some(v) => v,
        };
        Some(TransactionInput { hash, index, script, sequence, witness: None })
    }

    /// Decode a varuint-counted list of inputs.
    #[verifier::loop_isolation(false)]
    pub fn from_bytes_varuint_vec(r: &mut Reader<'_>) -> (res: Option<Vec<TransactionInput>>)
        requires
            old(r).wf(),
        ensures
            final(r).wf(),
            final(r).bytes() == old(r).bytes(),
            match spec_read_input_list(old(r).bytes(), old(r).position()) {
                Some((v, j)) => res matches Some(x) && x.deep_view() == v && final(r).position()
                    == j,
                None => res is None,
            },
    {
        let ghost s = old(r).bytes();
        let n = match r.get_varuint() {
            None => { return None },
            Some(v) => v,
        };
        let ghost j0 = r.position();
        let mut acc: Vec<TransactionInput> = Vec::new();
        let mut t: u64 = 0;
        while t < n
            invariant
                r.wf(),
                r.bytes() == s,
                t <= n,
                spec_read_inputs_n(s, j0, n as nat) == append_parsed(
                    acc.deep_view(),
                    spec_read_inputs_n(s, r.position(), (n - t) as nat),
                ),
            decreases n - t,
        {
            let ghost acc0 = acc.deep_view();
            let x = match TransactionInput::from_bytes(r) {
                None => { return None },
                Some(v) => v,
            };
            proof {
                lemma_append_parsed_step(
                    acc0,
                    x.deep_view(),
                    spec_read_inputs_n(s, r.position(), (n - t - 1) as nat),
                );
            }
            acc.push(x);
            proof {
                assert(acc.deep_view() =~= acc0.push(x.deep_view()));
            }
            t = t + 1;
        }
        proof {
            assert(acc.deep_view() + Seq::<InputView>::empty() =~= acc.deep_view());
        }
        Some(acc)
    }
}

impl TransactionOutput {
    /// Decode one output off the cursor.
    pub fn from_bytes(r: &mut Reader<'_>) -> (res: Option<TransactionOutput>)
        requires
            old(r).wf(),
        ensures
            final(r).wf(),
            final(r).bytes() == old(r).bytes(),
            match spec_read_output(old(r).bytes(), old(r).position()) {
                Some((v, j)) => res matches Some(x) && x.deep_view() == v && final(r).position()
                    == j,
                None => res is None,
            },
    {
        let value = match r.get_u64_le() {
            None => { return None },
            Some(v) => v,
        };
        let script = match r.get_varuint_slice() {
            None => { return None },
            Some(v) => v,
        };
        Some(TransactionOutput { value, script })
    }

    /// Decode a varuint-counted list of outputs.
    #[verifier::loop_isolation(false)]
    pub fn from_bytes_varuint_vec(r: &mut Reader<'_>) -> (res: Option<Vec<TransactionOutput>>)
        requires
            old(r).wf(),
        ensures
            final(r).wf(),
            final(r).bytes() == old(r).bytes(),
            match spec_read_output_list(old(r).bytes(), old(r).position()) {
                Some((v, j)) => res matches Some(x) && x.deep_view() == v && final(r).position()
                    == j,
                None => res is None,
            },
    {
        let ghost s = old(r).bytes();
        let n = match r.get_varuint() {
            None => { return None },
            Some(v) => v,
        };
        let ghost j0 = r.position();
        let mut acc: Vec<TransactionOutput> = Vec::new();
        let mut t: u64 = 0;
        while t < n
            invariant
                r.wf(),
                r.bytes() == s,
                t <= n,
                spec_read_outputs_n(s, j0, n as nat) == append_parsed(
                    acc.deep_view(),
                    spec_read_outputs_n(s, r.position(), (n - t) as nat),
                ),
            decreases n - t,
        {
            let ghost acc0 = acc.deep_view();
            let x = match TransactionOutput::from_bytes(r) {
                None => { return None },
                Some(v) => v,
            };
            proof {
                lemma_append_parsed_step(
                    acc0,
                    x.deep_view(),
                    spec_read_outputs_n(s, r.position(), (n - t - 1) as nat),
                );
            }
            acc.push(x);
            proof {
                assert(acc.deep_view() =~= acc0.push(x.deep_view()));
            }
            t = t + 1;
        }
        proof {
            assert(acc.deep_view() + Seq::<OutputView>::empty() =~= acc.deep_view());
        }
        Some(acc)
    }
}

impl Transaction {
    /// Decode one transaction, witness detection included (see
    /// `spec_read_tx`).
    #[verifier::loop_isolation(false)]
    #[verifier::rlimit(100)]
    pub fn from_bytes(r: &mut Reader<'_>) -> (res: Option<Transaction>)
        requires
            old(r).wf(),
        ensures
            final(r).wf(),
            final(r).bytes() == old(r).bytes(),
            match spec_read_tx(old(r).bytes(), old(r).position()) {
                Some((v, j)) => res matches Some(x) && x.deep_view() == v && final(r).position()
                    == j,
                None => res is None,
            },
    {
        let ghost s = old(r).bytes();
        let ghost i0 = old(r).position();
        let version = match r.get_u32_le() {
            None => { return None },
            Some(v) => v,
        };
        let mut flags: u8 = 0;
        let mut inputs = match TransactionInput::from_bytes_varuint_vec(r) {
            None => { return None },
            Some(v) => v,
        };
        let outputs;
        if inputs.len() == 0 {
            flags = match r.get_u8() {
                None => { return None },
                Some(v) => v,
            };
            inputs = match TransactionInput::from_bytes_varuint_vec(r) {
                None => { return None },
                Some(v) => v,
            };
            outputs = match TransactionOutput::from_bytes_varuint_vec(r) {
                None => { return None },
                Some(v) => v,
            };
        } else {
            outputs = match TransactionOutput::from_bytes_varuint_vec(r) {
                None => { return None },
                Some(v) => v,
            };
        }
        let ghost insv = inputs.deep_view();
        let ghost outsv = outputs.deep_view();
        let ghost jt = r.position();
        proof {
            assert(spec_read_tx(s, i0) == spec_read_tx_tail(s, jt, version, flags, insv, outsv));
        }
        let final_inputs: Vec<TransactionInput>;
        if flags & 1 == 1 {
            final_inputs = match attach_witness_stacks(r, inputs) {
                None => { return None },
                Some(v) => v,
            };
        } else {
            final_inputs = inputs;
        }
        let locktime = match r.get_u32_le() {
            None => { return None },
            Some(v) => v,
        };
        Some(Transaction { version, inputs: final_inputs, outputs, locktime })
    }

    /// Decode a varuint-counted list of transactions.
    #[verifier::loop_isolation(false)]
    pub fn from_bytes_varuint_vec(r: &mut Reader<'_>) -> (res: Option<Vec<Transaction>>)
        requires
            old(r).wf(),
        ensures
            final(r).wf(),
            final(r).bytes() == old(r).bytes(),
            match spec_read_tx_list(old(r).bytes(), old(r).position()) {
                Some((v, j)) => res matches Some(x) && x.deep_view() == v && final(r).position()
                    == j,
                None => res is None,
            },
    {
        let ghost s = old(r).bytes();
        let n = match r.get_varuint() {
            None => { return None },
            Some(v) => v,
        };
        let ghost j0 = r.position();
        let mut acc: Vec<Transaction> = Vec::new();
        let mut t: u64 = 0;
        while t < n
            invariant
                r.wf(),
                r.bytes() == s,
                t <= n,
                spec_read_txs_n(s, j0, n as nat) == append_parsed(
                    acc.deep_view(),
                    spec_read_txs_n(s, r.position(), (n - t) as nat),
                ),
            decreases n - t,
        {
            let ghost acc0 = acc.deep_view();
            let x = match Transaction::from_bytes(r) {
                None => { return None },
                Some(v) => v,
            };
            proof {
                lemma_append_parsed_step(
                    acc0,
                    x.deep_view(),
                    spec_read_txs_n(s, r.position(), (n - t - 1) as nat),
                );
            }
            acc.push(x);
            proof {
                assert(acc.deep_view() =~= acc0.push(x.deep_view()));
            }
            t = t + 1;
        }
        proof {
            assert(acc.deep_view() + Seq::<TxView>::empty() =~= acc.deep_view());
        }
        Some(acc)
    }
}

impl BlockHeader {
    /// Decode the fixed 80-byte header.
    pub fn from_bytes(r: &mut Reader<'_>) -> (res: Option<BlockHeader>)
        requires
            old(r).wf(),
        ensures
            final(r).wf(),
            final(r).bytes() == old(r).bytes(),
            match spec_read_header(old(r).bytes(), old(r).position()) {
                Some((v, j)) => res matches Some(x) && x.deep_view() == v && final(r).position()
                    == j,
                None => res is None,
            },
    {
        let version = match r.get_u32_le() {
            None => { return None },
            Some(v) => v,
        };
        let prev_hash = match H256::from_bytes(r) {
            None => { return None },
            Some(v) => v,
        };
        let merkle_root = match H256::from_bytes(r) {
            None => { return None },
            Some(v) => v,
        };
        let timestamp = match r.get_u32_le() {
            None => { return None },
            Some(v) => v,
        };
        let bits = match r.get_u32_le() {
            None => { return None },
            Some(v) => v,
        };
        let nonce = match r.get_u32_le() {
            None => { return None },
            Some(v) => v,
        };
        Some(BlockHeader { version, prev_hash, merkle_root, timestamp, bits, nonce })
    }
}

impl Block {
    /// Decode a whole block: header, then transactions.
    pub fn from_bytes(r: &mut Reader<'_>) -> (res: Option<Block>)
        requires
            old(r).wf(),
        ensures
            final(r).wf(),
            final(r).bytes() == old(r).bytes(),
            match spec_read_block(old(r).bytes(), old(r).position()) {
                Some((v, j)) => res matches Some(x) && x.deep_view() == v && final(r).position()
                    == j,
                None => res is None,
            },
    {
        let header = match BlockHeader::from_bytes(r) {
            None => { return None },
            Some(v) => v,
        };
        let transactions = match Transaction::from_bytes_varuint_vec(r) {
            None => { return None },
            Some(v) => v,
        };
        Some(Block { header, transactions })
    }
}

} // verus!
